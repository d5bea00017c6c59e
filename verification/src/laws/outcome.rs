//! What a call that personalises a document gives, and when it succeeds.

use crate::clock::{clock_gave, is_clock_date};
use crate::document::{loads_as, pdf_of, saved_bytes};
use crate::freshness::check_script;
use crate::laws::effect::{
    law_pass_installs_the_check, law_pass_keeps_the_other_objects, law_pass_keeps_the_trailer,
    law_pass_outcome, law_pass_writes_what_is_asked_for,
};
use crate::metadata::StampDates;
use crate::model::{holds, lookup, name_value, text_value, Entries, ObjectId, Pdf, Value};
use crate::settings::{Error, Options, Recipient};
use crate::stamp::{
    are_dates_for, document_has_room, has_room, is_copy_if_room, personalise,
    personalise_document, personalise_loaded, personalised, written_copy,
};
use vstd::prelude::*;
use vstd::utf8::encode_utf8;

verus! {

/// There is room for the stamp exactly where the object numbers behind the
/// highest one go round: one for an `/Info` dictionary where the trailer
/// refers to none, and one for a check. A document whose `/Info` reference
/// leads to no dictionary needs none, since it is not stamped. So all
/// documents have room but those with the last two numbers in use.
pub proof fn law_room(pdf: Pdf, options: Options)
    ensures
        has_room(pdf, options) <==> match lookup(pdf.trailer, "Info"@) {
            Some(Value::Reference(id)) => pdf.dictionary(id) is None || options.freshness is None
                || pdf.max_id + 1 <= u32::MAX,
            _ => pdf.max_id + (if options.freshness is Some {
                2int
            } else {
                1int
            }) <= u32::MAX,
        },
        pdf.max_id <= u32::MAX - 2 ==> has_room(pdf, options),
{
}

/// The test for room says that there is room where two object numbers are
/// left, and that there is none where a new object is due and none is left.
pub proof fn law_room_call(document: lopdf::Document, options: Options, room: bool)
    requires
        call_ensures(document_has_room, (&document, &options), room),
    ensures
        pdf_of(document).max_id <= u32::MAX - 2 ==> room,
        pdf_of(document).max_id == u32::MAX && !(lookup(pdf_of(document).trailer, "Info"@) matches
            Some(Value::Reference(_))) ==> !room,
        room == match lookup(pdf_of(document).trailer, "Info"@) {
            Some(Value::Reference(id)) => pdf_of(document).dictionary(id) is None
                || options.freshness is None || pdf_of(document).max_id + 1 <= u32::MAX,
            _ => pdf_of(document).max_id + (if options.freshness is Some {
                2int
            } else {
                1int
            }) <= u32::MAX,
        },
{
}

/// One pass over a document in memory gives the bytes of the stamped
/// document, the reason why it cannot be stamped, or an output error where
/// the stamped document cannot be written.
pub proof fn law_pass_call(
    document: lopdf::Document,
    recipient: Recipient,
    options: Options,
    dates: StampDates,
    outcome: Result<Vec<u8>, Error>,
)
    requires
        call_ensures(personalise_document, (document, &recipient, &options, &dates), outcome),
    ensures
        ({
            let stamped = personalised(pdf_of(document), recipient, options, dates);
            match outcome {
                Ok(bytes) => stamped is Ok && stamped->Ok_0.savable() && bytes@ == saved_bytes(
                    stamped->Ok_0,
                ),
                Err(Error::Structure(message)) => stamped == Err::<Pdf, Seq<char>>(message@),
                Err(Error::Output(_)) => stamped is Ok && !stamped->Ok_0.savable(),
                Err(Error::InvalidInput(_)) => false,
            }
        }),
{
}

/// What comes of reading a document: the reader's own error, the pass over
/// the document where there is room, and else the error that says so.
pub proof fn law_loaded_call(
    loaded: Result<lopdf::Document, lopdf::Error>,
    recipient: Recipient,
    options: Options,
    dates: StampDates,
    outcome: Result<Vec<u8>, Error>,
)
    requires
        call_ensures(personalise_loaded, (loaded, &recipient, &options, &dates), outcome),
    ensures
        match loaded {
            Err(error) => outcome == Err::<Vec<u8>, Error>(Error::InvalidInput(error)),
            Ok(document) => {
                let stamped = personalised(pdf_of(document), recipient, options, dates);
                if has_room(pdf_of(document), options) {
                    match outcome {
                        Ok(bytes) => stamped is Ok && stamped->Ok_0.savable() && bytes@
                            == saved_bytes(stamped->Ok_0),
                        Err(Error::Structure(message)) => stamped == Err::<Pdf, Seq<char>>(
                            message@,
                        ),
                        Err(Error::Output(_)) => stamped is Ok && !stamped->Ok_0.savable(),
                        Err(Error::InvalidInput(_)) => false,
                    }
                } else {
                    outcome matches Err(Error::Structure(message)) && message@
                        == "object numbers are used up"@
                }
            },
        },
{
}

/// Writing hands on the bytes or the writer's own error.
pub proof fn law_written_call(
    written: Result<Vec<u8>, std::io::Error>,
    outcome: Result<Vec<u8>, Error>,
)
    requires
        call_ensures(written_copy, (written,), outcome),
    ensures
        written matches Ok(bytes) ==> outcome == Ok::<Vec<u8>, Error>(bytes),
        written matches Err(error) ==> outcome == Err::<Vec<u8>, Error>(Error::Output(error)),
{
}

/// What `personalise` gives for its input: the error with which the reader
/// refused it, or else what a pass over the document that was read gives,
/// with a date from the clock for each date that is asked for.
pub proof fn law_personalise_call(
    input: &[u8],
    recipient: Recipient,
    options: Options,
    outcome: Result<Vec<u8>, Error>,
)
    requires
        call_ensures(personalise, (input, &recipient, &options), outcome),
    ensures
        exists|read: Result<Pdf, lopdf::Error>, dates: StampDates|
            #![trigger loads_as(input@, read), are_dates_for(dates, options)]
            {
                &&& loads_as(input@, read)
                &&& are_dates_for(dates, options)
                &&& options.invisible.stamped_at ==> exists|formatted: Option<String>| #[trigger]
                    clock_gave(formatted) && dates.stamped_at@ == match formatted {
                        Some(text) => text@,
                        None => "1970-01-01T00:00:00Z"@,
                    }
                &&& options.stamp_creation_date ==> exists|formatted: Option<String>| #[trigger]
                    clock_gave(formatted) && dates.created_at@ == match formatted {
                        Some(text) => text@,
                        None => "1970-01-01T00:00:00Z"@,
                    }
                &&& match read {
                    Err(error) => outcome == Err::<Vec<u8>, Error>(Error::InvalidInput(error)),
                    Ok(pdf) => {
                        let stamped = personalised(pdf, recipient, options, dates);
                        &&& holds(input@, encode_utf8("%PDF-"@))
                        &&& pdf.well_formed()
                        &&& if has_room(pdf, options) {
                            match outcome {
                                Ok(bytes) => stamped is Ok && stamped->Ok_0.savable() && bytes@
                                    == saved_bytes(stamped->Ok_0),
                                Err(Error::Structure(message)) => stamped == Err::<Pdf, Seq<char>>(
                                    message@,
                                ),
                                Err(Error::Output(_)) => stamped is Ok && !stamped->Ok_0.savable(),
                                Err(Error::InvalidInput(_)) => false,
                            }
                        } else {
                            outcome matches Err(Error::Structure(message)) && message@
                                == "object numbers are used up"@
                        }
                    },
                }
            },
{
    let (read, dates): (Result<Pdf, lopdf::Error>, StampDates) = choose|
        read: Result<Pdf, lopdf::Error>,
        dates: StampDates,
    |
        #![trigger loads_as(input@, read), are_dates_for(dates, options)]
        loads_as(input@, read) && are_dates_for(dates, options) && match read {
            Ok(pdf) => holds(input@, encode_utf8("%PDF-"@)) && pdf.well_formed()
                && is_copy_if_room(outcome, pdf, recipient, options, dates),
            Err(error) => outcome == Err::<Vec<u8>, Error>(Error::InvalidInput(error)),
        };
    assert(loads_as(input@, read) && are_dates_for(dates, options));
    assert(options.invisible.stamped_at ==> is_clock_date(dates.stamped_at@));
    assert(options.stamp_creation_date ==> is_clock_date(dates.created_at@));
}

/// `personalise` gives a copy of every input that can be read and has the
/// parts that the stamp goes into, unless the last three object numbers are
/// in use.
pub proof fn law_personalise_succeeds(
    input: &[u8],
    recipient: Recipient,
    options: Options,
    outcome: Result<Vec<u8>, Error>,
)
    requires
        call_ensures(personalise, (input, &recipient, &options), outcome),
        forall|read: Result<Pdf, lopdf::Error>| #[trigger] loads_as(input@, read) ==> read is Ok,
        forall|pdf: Pdf| #[trigger]
            loads_as(input@, Ok(pdf)) ==> {
                &&& pdf.max_id <= u32::MAX - 3
                &&& lookup(pdf.trailer, "Info"@) matches Some(Value::Reference(id))
                    ==> pdf.dictionary(id) is Some
                &&& options.freshness is Some ==> (lookup(pdf.trailer, "Root"@) matches Some(
                    Value::Reference(root),
                ) && pdf.dictionary(root) is Some)
            },
    ensures
        outcome is Ok,
{
    law_personalise_call(input, recipient, options, outcome);
    let (read, dates): (Result<Pdf, lopdf::Error>, StampDates) = choose|
        read: Result<Pdf, lopdf::Error>,
        dates: StampDates,
    |
        #![trigger loads_as(input@, read), are_dates_for(dates, options)]
        loads_as(input@, read) && are_dates_for(dates, options) && (read matches Ok(pdf)
            && pdf.well_formed() && is_copy_if_room(outcome, pdf, recipient, options, dates));
    let pdf = read->Ok_0;
    assert(loads_as(input@, Ok(pdf)));
    law_room(pdf, options);
    law_pass_outcome(pdf, recipient, options, dates);
    law_pass_keeps_the_other_objects(pdf, recipient, options, dates, (0, 0));
}

/// A document in memory can be personalised if it has the parts that the
/// stamp goes into, unless the last three object numbers are in use.
pub proof fn law_pass_call_succeeds(
    document: lopdf::Document,
    recipient: Recipient,
    options: Options,
    dates: StampDates,
    outcome: Result<Vec<u8>, Error>,
)
    requires
        call_ensures(personalise_document, (document, &recipient, &options, &dates), outcome),
        pdf_of(document).well_formed(),
        pdf_of(document).max_id <= u32::MAX - 3,
        lookup(pdf_of(document).trailer, "Info"@) matches Some(Value::Reference(id)) ==> pdf_of(
            document,
        ).dictionary(id) is Some,
        options.freshness is Some ==> (lookup(pdf_of(document).trailer, "Root"@) matches Some(
            Value::Reference(root),
        ) && pdf_of(document).dictionary(root) is Some),
    ensures
        outcome is Ok,
{
    let pdf = pdf_of(document);
    law_room(pdf, options);
    law_pass_call(document, recipient, options, dates, outcome);
    law_pass_outcome(pdf, recipient, options, dates);
    law_pass_keeps_the_other_objects(pdf, recipient, options, dates, (0, 0));
}

/// A personalised copy is the writing of a document that still opens as the
/// one that was read: its trailer is the same but for `/Info`, it has every
/// object of that document, unchanged but for the `/Info` dictionary and, with
/// a check, the catalog. Its `/Info` dictionary names the recipient where that
/// is asked for, and its catalog opens with the check's script where a check
/// is asked for.
pub proof fn law_personalised_copy_is_the_same_document(
    input: &[u8],
    recipient: Recipient,
    options: Options,
    outcome: Result<Vec<u8>, Error>,
)
    requires
        call_ensures(personalise, (input, &recipient, &options), outcome),
        outcome is Ok,
    ensures
        exists|pdf: Pdf, copy: Pdf|
            #![trigger loads_as(input@, Ok(pdf)), saved_bytes(copy)]
            {
                let info = lookup(copy.trailer, "Info"@)->0->Reference_0;
                let root = lookup(copy.trailer, "Root"@)->0->Reference_0;
                let action = lookup(copy.dictionary(root)->0, "OpenAction"@)->0->Reference_0;
                &&& loads_as(input@, Ok(pdf))
                &&& outcome->Ok_0@ == saved_bytes(copy)
                &&& forall|name: Seq<char>|
                    name != "Info"@ ==> #[trigger] lookup(copy.trailer, name) == lookup(
                        pdf.trailer,
                        name,
                    )
                &&& forall|id: ObjectId| #[trigger]
                    pdf.objects.contains_key(id) ==> copy.objects.contains_key(id) && (
                    copy.objects[id] == pdf.objects[id] || id == info || (options.freshness is Some
                        && lookup(pdf.trailer, "Root"@) == Some(Value::Reference(id))))
                &&& lookup(copy.trailer, "Info"@) == Some(Value::Reference(info))
                &&& copy.dictionary(info) is Some
                &&& options.invisible.recipient_id ==> lookup(
                    copy.dictionary(info)->0,
                    "Stamp.RecipientID"@,
                ) == Some(text_value(recipient.identifier@))
                &&& options.invisible.recipient_email && recipient.email is Some ==> lookup(
                    copy.dictionary(info)->0,
                    "Stamp.RecipientEmail"@,
                ) == Some(text_value(recipient.email->0@))
                &&& options.freshness matches Some(check) ==> {
                    &&& lookup(copy.trailer, "Root"@) == Some(Value::Reference(root))
                    &&& copy.dictionary(root) is Some
                    &&& lookup(copy.dictionary(root)->0, "OpenAction"@) == Some(
                        Value::Reference(action),
                    )
                    &&& copy.dictionary(action) is Some
                    &&& lookup(copy.dictionary(action)->0, "S"@) == Some(
                        name_value("JavaScript"@),
                    )
                    &&& lookup(copy.dictionary(action)->0, "JS"@) == Some(
                        text_value(check_script(check)),
                    )
                }
            },
{
    law_personalise_call(input, recipient, options, outcome);
    let (read, dates): (Result<Pdf, lopdf::Error>, StampDates) = choose|
        read: Result<Pdf, lopdf::Error>,
        dates: StampDates,
    |
        #![trigger loads_as(input@, read), are_dates_for(dates, options)]
        loads_as(input@, read) && are_dates_for(dates, options) && (read matches Ok(pdf)
            && pdf.well_formed() && has_room(pdf, options) && personalised(
            pdf,
            recipient,
            options,
            dates,
        ) is Ok && outcome->Ok_0@ == saved_bytes(
            personalised(pdf, recipient, options, dates)->Ok_0,
        ));
    let pdf = read->Ok_0;
    let copy = personalised(pdf, recipient, options, dates)->Ok_0;
    assert(loads_as(input@, Ok(pdf)) && outcome->Ok_0@ == saved_bytes(copy));
    law_pass_outcome(pdf, recipient, options, dates);
    law_pass_keeps_the_trailer(pdf, recipient, options, dates);
    let before: Entries = match lookup(pdf.trailer, "Info"@) {
        Some(Value::Reference(id)) => pdf.dictionary(id)->0,
        Some(Value::Dictionary(entries)) => entries,
        _ => Seq::empty(),
    };
    law_pass_writes_what_is_asked_for(pdf, recipient, options, dates, before);
    if let Some(check) = options.freshness {
        law_pass_installs_the_check(pdf, recipient, options, dates, check);
    }
    let info = lookup(copy.trailer, "Info"@)->0->Reference_0;
    assert forall|id: ObjectId| #[trigger]
        pdf.objects.contains_key(id) implies copy.objects.contains_key(id) && (copy.objects[id]
        == pdf.objects[id] || id == info || (options.freshness is Some && lookup(
        pdf.trailer,
        "Root"@,
    ) == Some(Value::Reference(id)))) by {
        law_pass_keeps_the_other_objects(pdf, recipient, options, dates, id);
    }
}

} // verus!
