//! What can be found in the bytes of a personalised copy.

use crate::clock::{is_clock_date, is_stamp_date, EPOCH};
use crate::document::loads_as;
use crate::freshness::{
    action_entries, check_script, check_url, with_action, SCRIPT_HEAD, SCRIPT_MIDDLE, SCRIPT_TAIL,
};
use crate::laws::dictionary::{
    law_lookup_after_set, lemma_bytes_tell_apart, lemma_position_bounds,
};
use crate::laws::metadata::{
    law_metadata_leaves_the_rest, law_metadata_outcome, lemma_stamp_keys,
};
use crate::laws::pass::{law_copy_is_traceable, lemma_action_entries, lemma_stamped};
use crate::metadata::{direct_info, info_id, metadata_stamped, StampDates};
use crate::model::{
    all_regular, all_verbatim, holds, is_left_out, is_regular, is_verbatim, lookup, name_value,
    position, set_entry, shows_dictionaries, shows_entry, shows_stretches, text_value, written_value, ObjectId,
    Pdf, Value,
};
use crate::settings::{Error, FreshnessCheck, Options, Recipient};
use crate::stamp::{
    are_dates_for, has_room, is_copy_from, is_copy_if_room, is_copy_of, personalised,
};
use crate::text::escaped;
use vstd::prelude::*;
use vstd::utf8::{encode_utf8, is_ascii_chars_encode_utf8};

verus! {

/// Whether the document's `/Info` dictionary is one that is left out of a
/// written document.
pub open spec fn info_is_left_out(pdf: Pdf) -> bool {
    match pdf.trailer_reference("Info"@) {
        Some(id) => match pdf.dictionary(id) {
            Some(entries) => is_left_out(entries),
            None => false,
        },
        None => is_left_out(direct_info(pdf)),
    }
}

/// The written form of a key and a literal string that need no escapes.
pub open spec fn plain_entry(name: Seq<char>, text: Seq<char>) -> Seq<u8> {
    seq![0x2fu8] + encode_utf8(name) + (seq![0x28u8] + encode_utf8(text) + seq![0x29u8])
}

/// The bytes of two texts, one after the other.
pub proof fn lemma_bytes_join(a: Seq<char>, b: Seq<char>)
    ensures
        encode_utf8(a + b) == encode_utf8(a) + encode_utf8(b),
    decreases a.len(),
{
    if a.len() == 0 {
        assert(a + b =~= b);
        assert(encode_utf8(a) + encode_utf8(b) =~= encode_utf8(b));
    } else {
        lemma_bytes_join(a.drop_first(), b);
        assert((a + b).drop_first() =~= a.drop_first() + b);
        let first = vstd::utf8::encode_scalar(a[0] as u32);
        assert(first + (encode_utf8(a.drop_first()) + encode_utf8(b)) =~= (first + encode_utf8(
            a.drop_first(),
        )) + encode_utf8(b));
    }
}

/// Whether all characters of `text` from position `from` on are ASCII
/// letters or full stops.
spec fn is_wordy(text: Seq<char>, from: int) -> bool
    decreases text.len() - from,
{
    from >= text.len() || (('a' <= text[from] <= 'z' || 'A' <= text[from] <= 'Z' || text[from]
        == '.') && is_wordy(text, from + 1))
}

proof fn lemma_wordy(text: Seq<char>, from: int)
    requires
        0 <= from,
        is_wordy(text, from),
    ensures
        forall|i: int|
            from <= i < text.len() ==> 'a' <= #[trigger] text[i] <= 'z' || 'A' <= text[i] <= 'Z'
                || text[i] == '.',
    decreases text.len() - from,
{
    if from < text.len() {
        lemma_wordy(text, from + 1);
    }
}

/// The bytes of such a text are written as they are in a name.
proof fn lemma_wordy_is_regular(text: Seq<char>)
    requires
        is_wordy(text, 0),
    ensures
        all_regular(encode_utf8(text)),
{
    lemma_wordy(text, 0);
    is_ascii_chars_encode_utf8(text);
    let bytes = encode_utf8(text);
    assert forall|i: int| 0 <= i < bytes.len() implies is_regular(#[trigger] bytes[i]) by {
        assert(text[i] as u8 == bytes[i]);
    }
}

proof fn lemma_keys_are_regular()
    ensures
        all_regular(encode_utf8("Stamp.RecipientID"@)),
        all_regular(encode_utf8("Stamp.RecipientEmail"@)),
        all_regular(encode_utf8("Stamp.StampedAt"@)),
        all_regular(encode_utf8("CreationDate"@)),
        all_regular(encode_utf8("S"@)),
        all_regular(encode_utf8("JavaScript"@)),
        all_regular(encode_utf8("OpenAction"@)),
{
    reveal_strlit("Stamp.RecipientID");
    reveal_strlit("Stamp.RecipientEmail");
    reveal_strlit("Stamp.StampedAt");
    reveal_strlit("CreationDate");
    reveal_strlit("S");
    reveal_strlit("JavaScript");
    reveal_strlit("OpenAction");
    reveal_with_fuel(is_wordy, 21);
    lemma_wordy_is_regular("Stamp.RecipientID"@);
    lemma_wordy_is_regular("Stamp.RecipientEmail"@);
    lemma_wordy_is_regular("Stamp.StampedAt"@);
    lemma_wordy_is_regular("CreationDate"@);
    lemma_wordy_is_regular("S"@);
    lemma_wordy_is_regular("JavaScript"@);
    lemma_wordy_is_regular("OpenAction"@);
}

/// An entry of a dictionary that is not left out stands in the bytes.
proof fn lemma_shown(bytes: Seq<u8>, pdf: Pdf, id: ObjectId, name: Seq<char>, value: Value)
    requires
        shows_dictionaries(bytes, pdf),
        pdf.dictionary(id) is Some,
        !is_left_out(pdf.dictionary(id)->0),
        lookup(pdf.dictionary(id)->0, name) == Some(value),
    ensures
        shows_entry(bytes, encode_utf8(name), value),
{
    let entries = pdf.dictionary(id)->0;
    lemma_position_bounds(entries, encode_utf8(name));
    let i = position(entries, encode_utf8(name)) as int;
    assert(pdf.dictionary(id)->0[i] == entries[i]);
}

/// A part of a literal string that needs no escapes stands in the bytes.
proof fn lemma_part_shown(
    bytes: Seq<u8>,
    key: Seq<u8>,
    before: Seq<char>,
    part: Seq<char>,
    after: Seq<char>,
)
    requires
        shows_entry(bytes, key, text_value(before + (part + after))),
    ensures
        all_verbatim(encode_utf8(part)) ==> holds(bytes, encode_utf8(part)),
{
    let text = encode_utf8(before + (part + after));
    lemma_bytes_join(before, part + after);
    lemma_bytes_join(part, after);
    let from = encode_utf8(before).len() as int;
    let to = from + encode_utf8(part).len();
    assert(text.subrange(from, to) =~= encode_utf8(part));
    assert(shows_stretches(bytes, text));
}

/// Where the `/Info` dictionary of the copy is found, and that it is left out
/// exactly where that of the document read is.
pub proof fn lemma_info_of_copy(
    pdf: Pdf,
    recipient: Recipient,
    options: Options,
    dates: StampDates,
)
    requires
        pdf.well_formed(),
        has_room(pdf, options),
        personalised(pdf, recipient, options, dates) is Ok,
    ensures
        ({
            let copy = personalised(pdf, recipient, options, dates)->Ok_0;
            &&& copy.trailer_reference("Info"@) == Some(info_id(pdf))
            &&& copy.dictionary(info_id(pdf)) is Some
            &&& is_left_out(copy.dictionary(info_id(pdf))->0) == info_is_left_out(pdf)
        }),
{
    let copy = personalised(pdf, recipient, options, dates)->Ok_0;
    lemma_stamped(pdf, recipient, options, dates);
    law_metadata_outcome(
        pdf,
        recipient,
        options.invisible,
        options.stamp_creation_date,
        dates,
    );
    reveal_strlit("Type");
    reveal_strlit("Linearized");
    reveal_strlit("OpenAction");
    reveal_strlit("Stamp.RecipientID");
    reveal_strlit("Stamp.RecipientEmail");
    reveal_strlit("Stamp.StampedAt");
    reveal_strlit("CreationDate");
    assert("Linearized"@[0] != "OpenAction"@[0]);
    law_copy_is_traceable(pdf, recipient, options, dates, "Type"@);
    law_copy_is_traceable(pdf, recipient, options, dates, "Linearized"@);
}

/// The bytes of a copy hold the recipient's identifier in plain sight, behind
/// its key, if it needs no escapes in a literal string; else each stretch of
/// it that needs none. The one exception is a document whose `/Info`
/// dictionary is marked as a part of the file's layout and left out.
pub proof fn law_copy_shows_identifier(
    outcome: Result<Vec<u8>, Error>,
    pdf: Pdf,
    recipient: Recipient,
    options: Options,
    dates: StampDates,
)
    requires
        pdf.well_formed(),
        has_room(pdf, options),
        is_copy_of(outcome, pdf, recipient, options, dates),
        outcome is Ok,
        options.invisible.recipient_id,
        !info_is_left_out(pdf),
    ensures
        all_verbatim(encode_utf8(recipient.identifier@)) ==> holds(
            outcome->Ok_0@,
            plain_entry("Stamp.RecipientID"@, recipient.identifier@),
        ),
        shows_stretches(outcome->Ok_0@, encode_utf8(recipient.identifier@)),
{
    let copy = personalised(pdf, recipient, options, dates)->Ok_0;
    reveal_strlit("Stamp.RecipientID");
    reveal_strlit("OpenAction");
    lemma_info_of_copy(pdf, recipient, options, dates);
    law_copy_is_traceable(pdf, recipient, options, dates, "Stamp.RecipientID"@);
    lemma_keys_are_regular();
    lemma_shown(
        outcome->Ok_0@,
        copy,
        info_id(pdf),
        "Stamp.RecipientID"@,
        text_value(recipient.identifier@),
    );
}

/// The same of the recipient's email, where there is one and it is asked for.
pub proof fn law_copy_shows_email(
    outcome: Result<Vec<u8>, Error>,
    pdf: Pdf,
    recipient: Recipient,
    options: Options,
    dates: StampDates,
)
    requires
        pdf.well_formed(),
        has_room(pdf, options),
        is_copy_of(outcome, pdf, recipient, options, dates),
        outcome is Ok,
        options.invisible.recipient_email,
        recipient.email is Some,
        !info_is_left_out(pdf),
    ensures
        all_verbatim(encode_utf8(recipient.email->0@)) ==> holds(
            outcome->Ok_0@,
            plain_entry("Stamp.RecipientEmail"@, recipient.email->0@),
        ),
        shows_stretches(outcome->Ok_0@, encode_utf8(recipient.email->0@)),
{
    let copy = personalised(pdf, recipient, options, dates)->Ok_0;
    reveal_strlit("Stamp.RecipientID");
    reveal_strlit("Stamp.RecipientEmail");
    reveal_strlit("OpenAction");
    lemma_info_of_copy(pdf, recipient, options, dates);
    law_copy_is_traceable(pdf, recipient, options, dates, "Stamp.RecipientEmail"@);
    lemma_keys_are_regular();
    lemma_shown(
        outcome->Ok_0@,
        copy,
        info_id(pdf),
        "Stamp.RecipientEmail"@,
        text_value(recipient.email->0@),
    );
}

/// The same of the date of the stamp, where it is asked for.
pub proof fn law_copy_shows_date(
    outcome: Result<Vec<u8>, Error>,
    pdf: Pdf,
    recipient: Recipient,
    options: Options,
    dates: StampDates,
)
    requires
        pdf.well_formed(),
        has_room(pdf, options),
        is_copy_of(outcome, pdf, recipient, options, dates),
        outcome is Ok,
        options.invisible.stamped_at,
        !info_is_left_out(pdf),
    ensures
        all_verbatim(encode_utf8(dates.stamped_at@)) ==> holds(
            outcome->Ok_0@,
            plain_entry("Stamp.StampedAt"@, dates.stamped_at@),
        ),
        shows_stretches(outcome->Ok_0@, encode_utf8(dates.stamped_at@)),
{
    let copy = personalised(pdf, recipient, options, dates)->Ok_0;
    lemma_stamp_keys();
    reveal_strlit("OpenAction");
    lemma_info_of_copy(pdf, recipient, options, dates);
    law_copy_is_traceable(pdf, recipient, options, dates, "Stamp.StampedAt"@);
    lemma_keys_are_regular();
    lemma_shown(
        outcome->Ok_0@,
        copy,
        info_id(pdf),
        "Stamp.StampedAt"@,
        text_value(dates.stamped_at@),
    );
}

/// The same of the new creation date, where it is asked for.
pub proof fn law_copy_shows_creation_date(
    outcome: Result<Vec<u8>, Error>,
    pdf: Pdf,
    recipient: Recipient,
    options: Options,
    dates: StampDates,
)
    requires
        pdf.well_formed(),
        has_room(pdf, options),
        is_copy_of(outcome, pdf, recipient, options, dates),
        outcome is Ok,
        options.stamp_creation_date,
        !info_is_left_out(pdf),
    ensures
        all_verbatim(encode_utf8(dates.created_at@)) ==> holds(
            outcome->Ok_0@,
            plain_entry("CreationDate"@, dates.created_at@),
        ),
        shows_stretches(outcome->Ok_0@, encode_utf8(dates.created_at@)),
{
    let copy = personalised(pdf, recipient, options, dates)->Ok_0;
    lemma_stamp_keys();
    reveal_strlit("OpenAction");
    reveal_strlit("CreationDate");
    assert("CreationDate"@[0] != "OpenAction"@[0]);
    lemma_info_of_copy(pdf, recipient, options, dates);
    law_copy_is_traceable(pdf, recipient, options, dates, "CreationDate"@);
    lemma_keys_are_regular();
    lemma_shown(
        outcome->Ok_0@,
        copy,
        info_id(pdf),
        "CreationDate"@,
        text_value(dates.created_at@),
    );
}

/// Whether `c` is a character that a stamp's date is made of.
spec fn is_date_char(c: char) -> bool {
    '0' <= c <= '9' || c == '-' || c == ':' || c == '.' || c == 'T' || c == 'Z'
}

/// Whether all characters of `text` from position `from` on are such.
spec fn is_dated(text: Seq<char>, from: int) -> bool
    decreases text.len() - from,
{
    from >= text.len() || (is_date_char(text[from]) && is_dated(text, from + 1))
}

proof fn lemma_dated(text: Seq<char>, from: int)
    requires
        0 <= from,
        is_dated(text, from),
    ensures
        forall|i: int| from <= i < text.len() ==> is_date_char(#[trigger] text[i]),
    decreases text.len() - from,
{
    if from < text.len() {
        lemma_dated(text, from + 1);
    }
}

/// A stamp's date needs no escapes in a literal string.
pub proof fn law_stamp_date_needs_no_escapes(text: Seq<char>)
    requires
        is_stamp_date(text),
    ensures
        all_verbatim(encode_utf8(text)),
{
    if text == EPOCH@ {
        reveal_strlit("1970-01-01T00:00:00Z");
        reveal_with_fuel(is_dated, 21);
        lemma_dated(EPOCH@, 0);
    }
    assert forall|i: int| 0 <= i < text.len() implies is_date_char(#[trigger] text[i]) by {}
    is_ascii_chars_encode_utf8(text);
    let bytes = encode_utf8(text);
    assert forall|i: int| 0 <= i < bytes.len() implies is_verbatim(#[trigger] bytes[i]) by {
        assert(text[i] as u8 == bytes[i]);
    }
}

/// The bytes of a personalised copy name the recipient and the clock's time,
/// each behind its own key, as far as it was asked for: the identifier and the
/// email where they need no escapes, the dates always. The one exception is
/// input with an `/Info` dictionary that is marked as a part of the file's
/// layout.
pub proof fn law_personalised_copy_can_be_searched(
    outcome: Result<Vec<u8>, Error>,
    bytes: Seq<u8>,
    recipient: Recipient,
    options: Options,
)
    requires
        is_copy_from(outcome, bytes, recipient, options),
        outcome is Ok,
        forall|pdf: Pdf| #[trigger] loads_as(bytes, Ok(pdf)) ==> !info_is_left_out(pdf),
    ensures
        options.invisible.recipient_id && all_verbatim(encode_utf8(recipient.identifier@))
            ==> holds(
            outcome->Ok_0@,
            plain_entry("Stamp.RecipientID"@, recipient.identifier@),
        ),
        options.invisible.recipient_email && recipient.email is Some && all_verbatim(
            encode_utf8(recipient.email->0@),
        ) ==> holds(
            outcome->Ok_0@,
            plain_entry("Stamp.RecipientEmail"@, recipient.email->0@),
        ),
        options.invisible.stamped_at ==> exists|date: Seq<char>|
            is_clock_date(date) && holds(
                outcome->Ok_0@,
                #[trigger] plain_entry("Stamp.StampedAt"@, date),
            ),
        options.stamp_creation_date ==> exists|date: Seq<char>|
            is_clock_date(date) && holds(
                outcome->Ok_0@,
                #[trigger] plain_entry("CreationDate"@, date),
            ),
{
    let (read, dates): (Result<Pdf, lopdf::Error>, StampDates) = choose|
        read: Result<Pdf, lopdf::Error>,
        dates: StampDates,
    |
        #![trigger loads_as(bytes, read), are_dates_for(dates, options)]
        loads_as(bytes, read) && are_dates_for(dates, options) && (read matches Ok(pdf)
            && pdf.well_formed() && is_copy_if_room(outcome, pdf, recipient, options, dates));
    let pdf = read->Ok_0;
    if options.invisible.recipient_id {
        law_copy_shows_identifier(outcome, pdf, recipient, options, dates);
    }
    if options.invisible.recipient_email && recipient.email is Some {
        law_copy_shows_email(outcome, pdf, recipient, options, dates);
    }
    if options.invisible.stamped_at {
        law_copy_shows_date(outcome, pdf, recipient, options, dates);
        law_stamp_date_needs_no_escapes(dates.stamped_at@);
        assert(holds(outcome->Ok_0@, plain_entry("Stamp.StampedAt"@, dates.stamped_at@)));
    }
    if options.stamp_creation_date {
        law_copy_shows_creation_date(outcome, pdf, recipient, options, dates);
        law_stamp_date_needs_no_escapes(dates.created_at@);
        assert(holds(outcome->Ok_0@, plain_entry("CreationDate"@, dates.created_at@)));
    }
}

/// The action's dictionary is written out, also where it is the catalog.
proof fn lemma_action_is_written(check: FreshnessCheck, action: ObjectId)
    ensures
        !is_left_out(action_entries(check)),
        !is_left_out(
            set_entry(action_entries(check), "OpenAction"@, Value::Reference(action)),
        ),
{
    let open = Value::Reference(action);
    reveal_strlit("OpenAction");
    reveal_strlit("Type");
    reveal_strlit("Linearized");
    reveal_strlit("Action");
    reveal_strlit("ObjStm");
    reveal_strlit("XRef");
    lemma_action_entries(check);
    law_lookup_after_set(action_entries(check), "OpenAction"@, open, "Type"@);
    assert("Action"@[0] != "ObjStm"@[0]);
    lemma_bytes_tell_apart("Action"@, "ObjStm"@);
    lemma_bytes_tell_apart("Action"@, "XRef"@);
    lemma_bytes_tell_apart("Action"@, "Linearized"@);
}

/// The bytes of a copy with a freshness check hold `/S/JavaScript`, and the
/// script's URL and message, if they need no escapes in a literal string of a
/// PDF.
pub proof fn law_copy_shows_check(
    outcome: Result<Vec<u8>, Error>,
    pdf: Pdf,
    recipient: Recipient,
    options: Options,
    dates: StampDates,
)
    requires
        pdf.well_formed(),
        has_room(pdf, options),
        is_copy_of(outcome, pdf, recipient, options, dates),
        outcome is Ok,
        options.freshness is Some,
    ensures
        holds(
            outcome->Ok_0@,
            seq![0x2fu8] + encode_utf8("S"@) + (seq![0x2fu8] + encode_utf8("JavaScript"@)),
        ),
        all_verbatim(encode_utf8(escaped(check_url(options.freshness->0)))) ==> holds(
            outcome->Ok_0@,
            encode_utf8(escaped(check_url(options.freshness->0))),
        ),
        all_verbatim(encode_utf8(escaped(options.freshness->0.outdated_message@))) ==> holds(
            outcome->Ok_0@,
            encode_utf8(escaped(options.freshness->0.outdated_message@)),
        ),
{
    let check = options.freshness->0;
    let copy = personalised(pdf, recipient, options, dates)->Ok_0;
    let bytes = outcome->Ok_0@;
    let stamped = metadata_stamped(
        pdf,
        recipient,
        options.invisible,
        options.stamp_creation_date,
        dates,
    )->Ok_0;
    let action = stamped.next_id();
    lemma_stamped(pdf, recipient, options, dates);
    lemma_action_entries(check);
    lemma_keys_are_regular();
    reveal_strlit("OpenAction");
    reveal_strlit("S");
    reveal_strlit("JS");
    assert(copy.dictionary(action) is Some);
    lemma_action_is_written(check, action);
    law_lookup_after_set(action_entries(check), "OpenAction"@, Value::Reference(action), "S"@);
    law_lookup_after_set(action_entries(check), "OpenAction"@, Value::Reference(action), "JS"@);
    lemma_shown(bytes, copy, action, "S"@, name_value("JavaScript"@));
    lemma_shown(bytes, copy, action, "JS"@, text_value(check_script(check)));

    let url = escaped(check_url(check));
    let message = escaped(check.outdated_message@);
    let end = message + SCRIPT_TAIL@;
    let js = encode_utf8("JS"@);
    lemma_part_shown(bytes, js, SCRIPT_HEAD@, url, SCRIPT_MIDDLE@ + end);
    assert(SCRIPT_HEAD@ + (url + (SCRIPT_MIDDLE@ + end)) =~= (SCRIPT_HEAD@ + url
        + SCRIPT_MIDDLE@) + (message + SCRIPT_TAIL@));
    lemma_part_shown(bytes, js, SCRIPT_HEAD@ + url + SCRIPT_MIDDLE@, message, SCRIPT_TAIL@);
}

/// Whether the document's catalog is a dictionary that is left out of a
/// written document.
pub open spec fn catalog_is_left_out(pdf: Pdf) -> bool {
    match pdf.trailer_reference("Root"@) {
        Some(root) => if root == info_id(pdf) {
            info_is_left_out(pdf)
        } else {
            match pdf.dictionary(root) {
                Some(entries) => is_left_out(entries),
                None => false,
            }
        },
        None => false,
    }
}

/// The bytes of a copy with a freshness check hold `/OpenAction`, unless the
/// catalog is marked as a part of the file's layout and left out.
pub proof fn law_copy_shows_open_action(
    outcome: Result<Vec<u8>, Error>,
    pdf: Pdf,
    recipient: Recipient,
    options: Options,
    dates: StampDates,
)
    requires
        pdf.well_formed(),
        has_room(pdf, options),
        is_copy_of(outcome, pdf, recipient, options, dates),
        outcome is Ok,
        options.freshness is Some,
        !catalog_is_left_out(pdf),
    ensures
        holds(outcome->Ok_0@, seq![0x2fu8] + encode_utf8("OpenAction"@)),
{
    let copy = personalised(pdf, recipient, options, dates)->Ok_0;
    let bytes = outcome->Ok_0@;
    let stamped = metadata_stamped(
        pdf,
        recipient,
        options.invisible,
        options.stamp_creation_date,
        dates,
    )->Ok_0;
    let check = options.freshness->0;
    let root = pdf.trailer_reference("Root"@)->0;
    let action = stamped.next_id();
    let open = Value::Reference(action);
    lemma_stamped(pdf, recipient, options, dates);
    lemma_info_of_copy(pdf, recipient, options, dates);
    law_metadata_leaves_the_rest(
        pdf,
        recipient,
        options.invisible,
        options.stamp_creation_date,
        dates,
    );
    lemma_keys_are_regular();
    reveal_strlit("OpenAction");
    reveal_strlit("Type");
    reveal_strlit("Linearized");
    assert("Linearized"@[0] != "OpenAction"@[0]);
    let catalog = with_action(stamped, check).dictionary(root)->0;
    assert(with_action(stamped, check).dictionary(root) is Some);
    law_lookup_after_set(catalog, "OpenAction"@, open, "Type"@);
    law_lookup_after_set(catalog, "OpenAction"@, open, "Linearized"@);
    law_lookup_after_set(catalog, "OpenAction"@, open, "OpenAction"@);
    if root == action {
        lemma_action_is_written(check, action);
    } else if root != info_id(pdf) {
        assert(stamped.objects.remove(info_id(pdf)).contains_key(root));
        assert(pdf.objects.remove(info_id(pdf))[root] == stamped.objects.remove(
            info_id(pdf),
        )[root]);
        assert(pdf.objects.contains_key(root));
        assert(pdf.dictionary(root) == Some(catalog));
    }
    lemma_shown(bytes, copy, root, "OpenAction"@, open);
    assert(seq![0x2fu8] + encode_utf8("OpenAction"@) + written_value(open) =~= seq![0x2fu8]
        + encode_utf8("OpenAction"@));
}

/// The bytes of a personalised copy with a freshness check hold
/// `/S/JavaScript`, the script's URL and message, if they need no escapes in a
/// literal string of a PDF, and `/OpenAction`, unless the input can be read as
/// a document whose catalog is marked as a part of the file's layout.
pub proof fn law_personalised_copy_shows_check(
    outcome: Result<Vec<u8>, Error>,
    bytes: Seq<u8>,
    recipient: Recipient,
    options: Options,
)
    requires
        is_copy_from(outcome, bytes, recipient, options),
        outcome is Ok,
        options.freshness is Some,
    ensures
        holds(
            outcome->Ok_0@,
            seq![0x2fu8] + encode_utf8("S"@) + (seq![0x2fu8] + encode_utf8("JavaScript"@)),
        ),
        all_verbatim(encode_utf8(escaped(check_url(options.freshness->0)))) ==> holds(
            outcome->Ok_0@,
            encode_utf8(escaped(check_url(options.freshness->0))),
        ),
        all_verbatim(encode_utf8(escaped(options.freshness->0.outdated_message@))) ==> holds(
            outcome->Ok_0@,
            encode_utf8(escaped(options.freshness->0.outdated_message@)),
        ),
        (forall|pdf: Pdf| #[trigger] loads_as(bytes, Ok(pdf)) ==> !catalog_is_left_out(pdf))
            ==> holds(outcome->Ok_0@, seq![0x2fu8] + encode_utf8("OpenAction"@)),
{
    let (read, dates): (Result<Pdf, lopdf::Error>, StampDates) = choose|
        read: Result<Pdf, lopdf::Error>,
        dates: StampDates,
    |
        #![trigger loads_as(bytes, read), are_dates_for(dates, options)]
        loads_as(bytes, read) && are_dates_for(dates, options) && (read matches Ok(pdf)
            && pdf.well_formed() && is_copy_if_room(outcome, pdf, recipient, options, dates));
    let pdf = read->Ok_0;
    law_copy_shows_check(outcome, pdf, recipient, options, dates);
    if !catalog_is_left_out(pdf) {
        law_copy_shows_open_action(outcome, pdf, recipient, options, dates);
    }
}

/// Bytes without the header of a PDF file are refused as input.
pub proof fn law_input_without_header_is_refused(
    outcome: Result<Vec<u8>, Error>,
    bytes: Seq<u8>,
    recipient: Recipient,
    options: Options,
)
    requires
        is_copy_from(outcome, bytes, recipient, options),
        !holds(bytes, encode_utf8("%PDF-"@)),
    ensures
        outcome is Err,
        outcome->Err_0 is InvalidInput,
{
}

/// An input error is the one with which the reader refused the bytes.
pub proof fn law_invalid_input_is_the_readers_error(
    error: lopdf::Error,
    bytes: Seq<u8>,
    recipient: Recipient,
    options: Options,
)
    requires
        is_copy_from(Err(Error::InvalidInput(error)), bytes, recipient, options),
    ensures
        loads_as(bytes, Err(error)),
{
}

/// Bytes that the reader can only refuse, with one error, give that error.
pub proof fn law_refused_input_gives_the_readers_error(
    outcome: Result<Vec<u8>, Error>,
    error: lopdf::Error,
    bytes: Seq<u8>,
    recipient: Recipient,
    options: Options,
)
    requires
        is_copy_from(outcome, bytes, recipient, options),
        forall|read: Result<Pdf, lopdf::Error>| #[trigger]
            loads_as(bytes, read) ==> read == Err::<Pdf, lopdf::Error>(error),
    ensures
        outcome == Err::<Vec<u8>, Error>(Error::InvalidInput(error)),
{
}

} // verus!
