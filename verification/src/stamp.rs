//! One personalisation pass over a document.

use crate::clock::{current_pdf_date, date_or_epoch, is_clock_date, EPOCH};
use crate::document::{
    dictionary, load, loads_as, max_id, pdf_of, save, saved_bytes, tells_texts_apart,
};
use crate::freshness::{apply_freshness_check, freshness_applied};
use crate::metadata::{
    apply_invisible_metadata, metadata_stamped, trailer_reference, StampDates,
};
use crate::model::{holds, shows_dictionaries, Pdf};
use crate::settings::{Error, Options, Recipient, VisibleWatermark};
use vstd::prelude::*;
use vstd::utf8::encode_utf8;

verus! {

/// The error where there are not enough object numbers left for the stamp.
pub const NUMBERS_USED_UP: &'static str = "object numbers are used up";

/// The document after one pass, or the reason why it cannot be stamped: the
/// metadata comes first, then the freshness check if one is asked for.
pub open spec fn personalised(
    pdf: Pdf,
    recipient: Recipient,
    options: Options,
    dates: StampDates,
) -> Result<Pdf, Seq<char>> {
    match metadata_stamped(
        pdf,
        recipient,
        options.invisible,
        options.stamp_creation_date,
        dates,
    ) {
        Ok(stamped) => match options.freshness {
            Some(check) => freshness_applied(stamped, check),
            None => Ok(stamped),
        },
        Err(reason) => Err(reason),
    }
}

/// Whether `outcome` is what one pass over the document gives: the bytes of
/// the stamped document, with its dictionaries in plain sight and unlike
/// those of any document that differs in a literal string; a structural error
/// where it cannot be stamped; an output error where it cannot be written.
pub open spec fn is_copy_of(
    outcome: Result<Vec<u8>, Error>,
    pdf: Pdf,
    recipient: Recipient,
    options: Options,
    dates: StampDates,
) -> bool {
    match personalised(pdf, recipient, options, dates) {
        Ok(stamped) => if stamped.savable() {
            outcome matches Ok(bytes) && bytes@ == saved_bytes(stamped) && shows_dictionaries(
                bytes@,
                stamped,
            ) && tells_texts_apart(bytes@, stamped)
        } else {
            outcome is Err && outcome->Err_0 is Output
        },
        Err(reason) => outcome matches Err(Error::Structure(message)) && message@ == reason,
    }
}

/// How many new objects one pass adds to the document.
pub open spec fn new_objects(pdf: Pdf, options: Options) -> nat {
    let for_check: nat = if options.freshness is Some {
        1
    } else {
        0
    };
    match pdf.trailer_reference("Info"@) {
        Some(id) => if pdf.dictionary(id) is Some {
            for_check
        } else {
            0
        },
        None => 1 + for_check,
    }
}

/// Whether there are object numbers left for what one pass adds.
pub open spec fn has_room(pdf: Pdf, options: Options) -> bool {
    pdf.max_id + new_objects(pdf, options) <= u32::MAX
}

/// Whether `outcome` is what comes of a document that was read: what one pass
/// over it gives, or a structural error where its object numbers are used up.
pub open spec fn is_copy_if_room(
    outcome: Result<Vec<u8>, Error>,
    pdf: Pdf,
    recipient: Recipient,
    options: Options,
    dates: StampDates,
) -> bool {
    if has_room(pdf, options) {
        is_copy_of(outcome, pdf, recipient, options, dates)
    } else {
        outcome matches Err(Error::Structure(message)) && message@ == NUMBERS_USED_UP@
    }
}

/// What was read, by the document's model.
spec fn reading(loaded: Result<lopdf::Document, lopdf::Error>) -> Result<Pdf, lopdf::Error> {
    match loaded {
        Ok(document) => Ok(pdf_of(document)),
        Err(error) => Err(error),
    }
}

/// Whether the dates are such as a pass with these options takes: from the
/// clock where one is asked for, and the epoch where it is not.
pub open spec fn are_dates_for(dates: StampDates, options: Options) -> bool {
    &&& if options.invisible.stamped_at {
        is_clock_date(dates.stamped_at@)
    } else {
        dates.stamped_at@ == EPOCH@
    }
    &&& if options.stamp_creation_date {
        is_clock_date(dates.created_at@)
    } else {
        dates.created_at@ == EPOCH@
    }
}

/// Whether `outcome` is what comes of a document that `bytes` can be read as,
/// with dates from the clock; the reader's error where the bytes are refused, as are all
/// without the header of a PDF file.
pub open spec fn is_copy_from(
    outcome: Result<Vec<u8>, Error>,
    bytes: Seq<u8>,
    recipient: Recipient,
    options: Options,
) -> bool {
    exists|read: Result<Pdf, lopdf::Error>, dates: StampDates|
        #![trigger loads_as(bytes, read), are_dates_for(dates, options)]
        {
            &&& loads_as(bytes, read)
            &&& are_dates_for(dates, options)
            &&& match read {
                Ok(pdf) => {
                    &&& holds(bytes, encode_utf8("%PDF-"@))
                    &&& pdf.well_formed()
                    &&& is_copy_if_room(outcome, pdf, recipient, options, dates)
                },
                Err(error) => outcome == Err::<Vec<u8>, Error>(Error::InvalidInput(error)),
            }
        }
}

/// The visible watermark is accepted and not drawn yet: the document stays as
/// it is.
fn apply_visible_watermark(
    _document: &mut lopdf::Document,
    _recipient: &Recipient,
    _watermark: &VisibleWatermark,
) -> (outcome: Result<(), Error>)
    ensures
        outcome is Ok,
        *final(_document) == *old(_document),
{
    Ok(())
}

/// Whether there are object numbers left for what one pass adds.
pub fn document_has_room(document: &lopdf::Document, options: &Options) -> (room: bool)
    ensures
        room == has_room(pdf_of(*document), *options),
{
    let for_check: u32 = if options.freshness.is_some() {
        1
    } else {
        0
    };
    let added: u32 = match trailer_reference(document, "Info") {
        Some(id) => if dictionary(document, id).is_some() {
            for_check
        } else {
            0
        },
        None => 1 + for_check,
    };
    max_id(document) <= u32::MAX - added
}

/// What comes of writing a copy: its bytes, or the writer's error.
pub fn written_copy(written: Result<Vec<u8>, std::io::Error>) -> (outcome: Result<Vec<u8>, Error>)
    ensures
        match written {
            Ok(bytes) => outcome == Ok::<Vec<u8>, Error>(bytes),
            Err(error) => outcome == Err::<Vec<u8>, Error>(Error::Output(error)),
        },
{
    match written {
        Ok(bytes) => Ok(bytes),
        Err(error) => Err(Error::from(error)),
    }
}

/// One pass over a document that is already in memory, with given dates.
pub fn personalise_document(
    document: lopdf::Document,
    recipient: &Recipient,
    options: &Options,
    dates: &StampDates,
) -> (outcome: Result<Vec<u8>, Error>)
    requires
        has_room(pdf_of(document), *options),
    ensures
        is_copy_of(outcome, pdf_of(document), *recipient, *options, *dates),
{
    let mut document = document;
    if let Some(watermark) = &options.visible {
        if let Err(error) = apply_visible_watermark(&mut document, recipient, watermark) {
            return Err(error);
        }
    }
    if let Err(error) = apply_invisible_metadata(
        &mut document,
        recipient,
        &options.invisible,
        options.stamp_creation_date,
        dates,
    ) {
        return Err(error);
    }
    if let Some(check) = &options.freshness {
        if let Err(error) = apply_freshness_check(&mut document, check) {
            return Err(error);
        }
    }
    written_copy(save(document))
}

/// What comes of reading a document, with given dates: one pass over it if
/// its object numbers are not used up, or the reader's error.
pub fn personalise_loaded(
    loaded: Result<lopdf::Document, lopdf::Error>,
    recipient: &Recipient,
    options: &Options,
    dates: &StampDates,
) -> (outcome: Result<Vec<u8>, Error>)
    ensures
        match loaded {
            Ok(document) => is_copy_if_room(
                outcome,
                pdf_of(document),
                *recipient,
                *options,
                *dates,
            ),
            Err(error) => outcome == Err::<Vec<u8>, Error>(Error::InvalidInput(error)),
        },
{
    match loaded {
        Ok(document) => if document_has_room(&document, options) {
            personalise_document(document, recipient, options, dates)
        } else {
            Err(Error::Structure(NUMBERS_USED_UP))
        },
        Err(error) => Err(Error::from(error)),
    }
}

/// The dates for one pass. The clock is read only for a date that the
/// options ask for.
fn read_dates(options: &Options) -> (dates: StampDates)
    ensures
        are_dates_for(dates, *options),
{
    let stamped_at = if options.invisible.stamped_at {
        current_pdf_date()
    } else {
        date_or_epoch(None)
    };
    let created_at = if options.stamp_creation_date {
        current_pdf_date()
    } else {
        date_or_epoch(None)
    };
    StampDates { stamped_at, created_at }
}

/// Apply one personalisation pass to `input` and return the bytes of the
/// personalised copy. The filesystem is not touched.
pub fn personalise(input: &[u8], recipient: &Recipient, options: &Options) -> (outcome: Result<
    Vec<u8>,
    Error,
>)
    ensures
        is_copy_from(outcome, input@, *recipient, *options),
{
    let dates = read_dates(options);
    let loaded = load(input);
    assert(loads_as(input@, reading(loaded)) && are_dates_for(dates, *options));
    personalise_loaded(loaded, recipient, options, &dates)
}

} // verus!
