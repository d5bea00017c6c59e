//! Which copies are different files, and which are the same.

use crate::document::{loads_as, tells_texts_apart};
use crate::freshness::with_action;
use crate::laws::bytes::{info_is_left_out, lemma_info_of_copy};
use crate::laws::dictionary::{lemma_bytes_tell_apart, lemma_position_bounds};
use crate::laws::metadata::{lemma_stamp_keys, lemma_with_info};
use crate::laws::pass::{
    law_dates_show_only_on_request, law_watermark_and_name_do_not_show, lemma_stamped,
};
use crate::metadata::{
    info_id, metadata_stamped, set_text, stamp_key, stamped_email, stamped_entries, text_if,
    with_info, StampDates,
};
use crate::model::{
    differ_in_text, is_literal, position, set_entry, text_value, Entries, Pdf, Value,
};
use crate::settings::{Error, InvisibleMetadata, Options, Recipient, VisibleWatermark};
use crate::stamp::{
    are_dates_for, has_room, is_copy_from, is_copy_if_room, is_copy_of, personalised,
};
use vstd::prelude::*;
use vstd::utf8::encode_utf8;

verus! {

/// Whether two dictionaries have the same keys up to the entry `k`, where
/// their values differ, and differ up to there only where at least one value
/// is a literal string.
spec fn part_at(a: Entries, b: Entries, k: int) -> bool {
    &&& 0 <= k < a.len() && k < b.len()
    &&& a[k].1 != b[k].1
    &&& forall|j: int|
        #![trigger a[j]]
        #![trigger b[j]]
        0 <= j <= k ==> a[j].0 == b[j].0 && (a[j].1 == b[j].1 || is_literal(a[j].1) || is_literal(
            b[j].1,
        ))
}

/// A text under another key, in one of two such dictionaries or in both,
/// leaves them such.
proof fn lemma_part_after_text(
    a: Entries,
    b: Entries,
    k: int,
    name: Seq<char>,
    in_a: Option<Seq<char>>,
    in_b: Option<Seq<char>>,
)
    requires
        part_at(a, b, k),
        a[k].0 != encode_utf8(name),
    ensures
        part_at(set_text(a, name, in_a), set_text(b, name, in_b), k),
        set_text(a, name, in_a)[k].0 == a[k].0,
{
    lemma_position_bounds(a, encode_utf8(name));
    lemma_position_bounds(b, encode_utf8(name));
    assert(a[k].0 == b[k].0);
    let after_a = set_text(a, name, in_a);
    let after_b = set_text(b, name, in_b);
    assert forall|j: int|
        #![trigger after_a[j]]
        #![trigger after_b[j]]
        0 <= j <= k implies after_a[j].0 == after_b[j].0 && (after_a[j].1 == after_b[j].1
        || is_literal(after_a[j].1) || is_literal(after_b[j].1)) by {
        assert(a[j].0 == b[j].0);
    }
}

/// A key that comes up early enough is found at the same place in both.
proof fn lemma_same_position(a: Entries, b: Entries, k: int, key: Seq<u8>)
    requires
        k < a.len() && k < b.len(),
        forall|j: int| 0 <= j <= k ==> #[trigger] a[j].0 == b[j].0,
        position(a, key) <= k,
    ensures
        position(b, key) == position(a, key),
    decreases a.len(),
{
    assert(a[0].0 == b[0].0);
    if a[0].0 != key {
        let c = a.drop_first();
        let d = b.drop_first();
        assert forall|j: int| 0 <= j <= k - 1 implies #[trigger] c[j].0 == d[j].0 by {
            assert(a[j + 1].0 == b[j + 1].0);
        }
        lemma_same_position(c, d, k - 1, key);
    }
}

/// The same value under another key in both leaves them such.
proof fn lemma_part_after_set(a: Entries, b: Entries, k: int, name: Seq<char>, value: Value)
    requires
        part_at(a, b, k),
        a[k].0 != encode_utf8(name),
    ensures
        part_at(set_entry(a, name, value), set_entry(b, name, value), k),
{
    let key = encode_utf8(name);
    lemma_position_bounds(a, key);
    lemma_position_bounds(b, key);
    assert(a[k].0 == b[k].0);
    if position(a, key) <= k {
        lemma_same_position(a, b, k, key);
    }
    if position(b, key) <= k {
        lemma_same_position(b, a, k, key);
    }
    let after_a = set_entry(a, name, value);
    let after_b = set_entry(b, name, value);
    assert forall|j: int|
        #![trigger after_a[j]]
        #![trigger after_b[j]]
        0 <= j <= k implies after_a[j].0 == after_b[j].0 && (after_a[j].1 == after_b[j].1
        || is_literal(after_a[j].1) || is_literal(after_b[j].1)) by {
        assert(a[j].0 == b[j].0);
    }
}

/// The first entry in which two such dictionaries differ.
proof fn lemma_first_difference(a: Entries, b: Entries, k: int, from: int) -> (i: int)
    requires
        part_at(a, b, k),
        0 <= from <= k,
        a.take(from) == b.take(from),
    ensures
        from <= i <= k,
        a.take(i) == b.take(i),
        a[i].0 == b[i].0,
        a[i].1 != b[i].1,
        is_literal(a[i].1) || is_literal(b[i].1),
    decreases k - from,
{
    assert(a[from].0 == b[from].0);
    if a[from].1 != b[from].1 {
        from
    } else {
        assert(a.take(from + 1) =~= a.take(from).push(a[from]));
        assert(b.take(from + 1) =~= b.take(from).push(b[from]));
        lemma_first_difference(a, b, k, from + 1)
    }
}

/// Two stamps of one dictionary part at the recipient's identifier, if not
/// before.
proof fn lemma_stamps_part(
    entries: Entries,
    one: Recipient,
    other: Recipient,
    flags: InvisibleMetadata,
    stamp_creation_date: bool,
    one_dates: StampDates,
    other_dates: StampDates,
)
    requires
        flags.recipient_id,
        one.identifier@ != other.identifier@,
    ensures
        ({
            let k = position(entries, encode_utf8("Stamp.RecipientID"@)) as int;
            let a = stamped_entries(entries, one, flags, stamp_creation_date, one_dates);
            let b = stamped_entries(entries, other, flags, stamp_creation_date, other_dates);
            &&& part_at(a, b, k)
            &&& a[k].0 == encode_utf8("Stamp.RecipientID"@)
        }),
{
    lemma_stamp_keys();
    lemma_bytes_tell_apart(one.identifier@, other.identifier@);
    lemma_bytes_tell_apart("Stamp.RecipientID"@, "Stamp.RecipientEmail"@);
    lemma_bytes_tell_apart("Stamp.RecipientID"@, "Stamp.StampedAt"@);
    lemma_bytes_tell_apart("Stamp.RecipientID"@, "CreationDate"@);
    let key = encode_utf8("Stamp.RecipientID"@);
    lemma_position_bounds(entries, key);
    let k = position(entries, key) as int;
    let id = stamp_key("RecipientID"@);
    let email = stamp_key("RecipientEmail"@);
    let stamped_at = stamp_key("StampedAt"@);
    let a1 = set_text(entries, id, text_if(flags.recipient_id, one.identifier@));
    let b1 = set_text(entries, id, text_if(flags.recipient_id, other.identifier@));
    assert(a1[k] == (key, text_value(one.identifier@)));
    assert(b1[k] == (key, text_value(other.identifier@)));
    assert(part_at(a1, b1, k));
    let one_email = stamped_email(one, flags);
    let other_email = stamped_email(other, flags);
    lemma_part_after_text(a1, b1, k, email, one_email, other_email);
    let a2 = set_text(a1, email, one_email);
    let b2 = set_text(b1, email, other_email);
    let one_stamped = text_if(flags.stamped_at, one_dates.stamped_at@);
    let other_stamped = text_if(flags.stamped_at, other_dates.stamped_at@);
    lemma_part_after_text(a2, b2, k, stamped_at, one_stamped, other_stamped);
    let a3 = set_text(a2, stamped_at, one_stamped);
    let b3 = set_text(b2, stamped_at, other_stamped);
    lemma_part_after_text(
        a3,
        b3,
        k,
        "CreationDate"@,
        text_if(stamp_creation_date, one_dates.created_at@),
        text_if(stamp_creation_date, other_dates.created_at@),
    );
}

/// Two copies of one document part in their `/Info` dictionaries and nowhere
/// else.
proof fn lemma_copies_part(
    pdf: Pdf,
    one: Recipient,
    other: Recipient,
    options: Options,
    one_dates: StampDates,
    other_dates: StampDates,
)
    requires
        pdf.well_formed(),
        has_room(pdf, options),
        options.invisible.recipient_id,
        one.identifier@ != other.identifier@,
        personalised(pdf, one, options, one_dates) is Ok,
        personalised(pdf, other, options, other_dates) is Ok,
    ensures
        ({
            let a = personalised(pdf, one, options, one_dates)->Ok_0;
            let b = personalised(pdf, other, options, other_dates)->Ok_0;
            let id = info_id(pdf);
            &&& a.version == b.version
            &&& a.binary_mark == b.binary_mark
            &&& a.objects.remove(id) == b.objects.remove(id)
            &&& a.dictionary(id) is Some && b.dictionary(id) is Some
            &&& exists|k: int| part_at(a.dictionary(id)->0, b.dictionary(id)->0, k)
        }),
{
    let flags = options.invisible;
    let dated = options.stamp_creation_date;
    let id = info_id(pdf);
    let entries = with_info(pdf).dictionary(id)->0;
    let k = position(entries, encode_utf8("Stamp.RecipientID"@)) as int;
    lemma_with_info(pdf);
    lemma_stamps_part(entries, one, other, flags, dated, one_dates, other_dates);
    lemma_stamped(pdf, one, options, one_dates);
    lemma_stamped(pdf, other, options, other_dates);
    let a = metadata_stamped(pdf, one, flags, dated, one_dates)->Ok_0;
    let b = metadata_stamped(pdf, other, flags, dated, other_dates)->Ok_0;
    assert(a.objects.remove(id) =~= b.objects.remove(id));
    assert(part_at(a.dictionary(id)->0, b.dictionary(id)->0, k));
    if let Some(check) = options.freshness {
        let action = a.next_id();
        let open = Value::Reference(action);
        let root = a.trailer_reference("Root"@)->0;
        let acting_a = with_action(a, check);
        let acting_b = with_action(b, check);
        assert(a.objects.contains_key(id));
        assert(id != action);
        assert(acting_a.dictionary(id) == a.dictionary(id));
        assert(acting_b.dictionary(id) == b.dictionary(id));
        assert(acting_a.objects.remove(id) =~= acting_b.objects.remove(id));
        reveal_strlit("OpenAction");
        reveal_strlit("Stamp.RecipientID");
        lemma_bytes_tell_apart("Stamp.RecipientID"@, "OpenAction"@);
        lemma_part_after_set(
            a.dictionary(id)->0,
            b.dictionary(id)->0,
            k,
            "OpenAction"@,
            open,
        );
        let copy_a = personalised(pdf, one, options, one_dates)->Ok_0;
        let copy_b = personalised(pdf, other, options, other_dates)->Ok_0;
        if root != id {
            assert(acting_a.objects.remove(id).contains_key(root));
            assert(acting_a.objects.remove(id)[root] == acting_b.objects.remove(id)[root]);
            assert(acting_a.dictionary(root) == acting_b.dictionary(root));
        }
        assert(copy_a.objects.remove(id) =~= copy_b.objects.remove(id));
        assert(part_at(copy_a.dictionary(id)->0, copy_b.dictionary(id)->0, k));
    }
}

/// Two copies of one document for recipients with different identifiers are
/// different bytes, whatever else is the same of the recipients and the
/// dates. The one exception is a document whose `/Info` dictionary is marked
/// as a part of the file's layout and left out.
pub proof fn law_copies_are_different_files(
    one_copy: Result<Vec<u8>, Error>,
    other_copy: Result<Vec<u8>, Error>,
    pdf: Pdf,
    one: Recipient,
    other: Recipient,
    options: Options,
    one_dates: StampDates,
    other_dates: StampDates,
)
    requires
        pdf.well_formed(),
        has_room(pdf, options),
        is_copy_of(one_copy, pdf, one, options, one_dates),
        is_copy_of(other_copy, pdf, other, options, other_dates),
        one_copy is Ok,
        other_copy is Ok,
        options.invisible.recipient_id,
        one.identifier@ != other.identifier@,
        !info_is_left_out(pdf),
    ensures
        one_copy->Ok_0@ != other_copy->Ok_0@,
{
    let id = info_id(pdf);
    let a = personalised(pdf, one, options, one_dates)->Ok_0;
    let b = personalised(pdf, other, options, other_dates)->Ok_0;
    lemma_info_of_copy(pdf, one, options, one_dates);
    lemma_info_of_copy(pdf, other, options, other_dates);
    lemma_copies_part(pdf, one, other, options, one_dates, other_dates);
    let first = a.dictionary(id)->0;
    let second = b.dictionary(id)->0;
    let k = choose|k: int| part_at(first, second, k);
    assert(first.take(0) =~= second.take(0));
    let i = lemma_first_difference(first, second, k, 0);
    assert(differ_in_text(a, b, id, i));
    assert(tells_texts_apart(one_copy->Ok_0@, a));
}

/// The same of two personalised copies of the same bytes, if there is only
/// one way to read these.
pub proof fn law_personalised_copies_are_different_files(
    one_copy: Result<Vec<u8>, Error>,
    other_copy: Result<Vec<u8>, Error>,
    bytes: Seq<u8>,
    one: Recipient,
    other: Recipient,
    options: Options,
)
    requires
        is_copy_from(one_copy, bytes, one, options),
        is_copy_from(other_copy, bytes, other, options),
        one_copy is Ok,
        other_copy is Ok,
        options.invisible.recipient_id,
        one.identifier@ != other.identifier@,
        forall|a: Result<Pdf, lopdf::Error>, b: Result<Pdf, lopdf::Error>| #[trigger]
            loads_as(bytes, a) && #[trigger] loads_as(bytes, b) ==> a == b,
        forall|pdf: Pdf| #[trigger] loads_as(bytes, Ok(pdf)) ==> !info_is_left_out(pdf),
    ensures
        one_copy->Ok_0@ != other_copy->Ok_0@,
{
    let (read, one_dates): (Result<Pdf, lopdf::Error>, StampDates) = choose|
        read: Result<Pdf, lopdf::Error>,
        dates: StampDates,
    |
        #![trigger loads_as(bytes, read), are_dates_for(dates, options)]
        loads_as(bytes, read) && are_dates_for(dates, options) && (read matches Ok(pdf) ==> pdf.well_formed() && has_room(
            pdf,
            options,
        ) && is_copy_of(one_copy, pdf, one, options, dates)) && read is Ok;
    let (again, other_dates): (Result<Pdf, lopdf::Error>, StampDates) = choose|
        read: Result<Pdf, lopdf::Error>,
        dates: StampDates,
    |
        #![trigger loads_as(bytes, read), are_dates_for(dates, options)]
        loads_as(bytes, read) && are_dates_for(dates, options) && (read matches Ok(pdf) ==> pdf.well_formed() && has_room(
            pdf,
            options,
        ) && is_copy_of(other_copy, pdf, other, options, dates)) && read is Ok;
    assert(read == again);
    law_copies_are_different_files(
        one_copy,
        other_copy,
        read->Ok_0,
        one,
        other,
        options,
        one_dates,
        other_dates,
    );
}

/// Whether two outcomes are the same to a caller: the same bytes, or errors of
/// the same kind with the same message where the library words it.
pub open spec fn same_outcome(one: Result<Vec<u8>, Error>, other: Result<Vec<u8>, Error>) -> bool {
    match (one, other) {
        (Ok(a), Ok(b)) => a@ == b@,
        (Err(Error::Structure(a)), Err(Error::Structure(b))) => a@ == b@,
        (Err(Error::Output(_)), Err(Error::Output(_))) => true,
        (Err(Error::InvalidInput(a)), Err(Error::InvalidInput(b))) => a == b,
        _ => false,
    }
}

/// Neither the visible watermark nor the recipient's name makes a difference
/// to the outcome: the bytes of the copy are the same.
pub proof fn law_watermark_and_name_leave_the_file(
    one: Result<Vec<u8>, Error>,
    other: Result<Vec<u8>, Error>,
    pdf: Pdf,
    recipient: Recipient,
    name: String,
    options: Options,
    visible: Option<VisibleWatermark>,
    dates: StampDates,
)
    requires
        is_copy_if_room(one, pdf, recipient, options, dates),
        is_copy_if_room(
            other,
            pdf,
            Recipient { name, ..recipient },
            Options { visible, ..options },
            dates,
        ),
    ensures
        one is Ok <==> other is Ok,
        one is Ok ==> one->Ok_0@ == other->Ok_0@,
        same_outcome(one, other),
{
    law_watermark_and_name_do_not_show(pdf, recipient, name, options, visible, dates);
}

/// The dates make no difference to the outcome where none is asked for.
pub proof fn law_dates_leave_the_file_unless_asked_for(
    one: Result<Vec<u8>, Error>,
    other: Result<Vec<u8>, Error>,
    pdf: Pdf,
    recipient: Recipient,
    options: Options,
    one_dates: StampDates,
    other_dates: StampDates,
)
    requires
        is_copy_if_room(one, pdf, recipient, options, one_dates),
        is_copy_if_room(other, pdf, recipient, options, other_dates),
        !options.invisible.stamped_at,
        !options.stamp_creation_date,
    ensures
        one is Ok <==> other is Ok,
        one is Ok ==> one->Ok_0@ == other->Ok_0@,
        same_outcome(one, other),
{
    law_dates_show_only_on_request(pdf, recipient, options, one_dates, other_dates);
}

/// To personalise the same bytes again gives the same outcome, whatever the
/// recipient's name, the watermark and the time, if no date is asked for and
/// there is only one way to read the bytes.
pub proof fn law_personalise_again_gives_the_same_file(
    one: Result<Vec<u8>, Error>,
    other: Result<Vec<u8>, Error>,
    bytes: Seq<u8>,
    recipient: Recipient,
    name: String,
    options: Options,
    visible: Option<VisibleWatermark>,
)
    requires
        is_copy_from(one, bytes, recipient, options),
        is_copy_from(
            other,
            bytes,
            Recipient { name, ..recipient },
            Options { visible, ..options },
        ),
        !options.invisible.stamped_at,
        !options.stamp_creation_date,
        forall|a: Result<Pdf, lopdf::Error>, b: Result<Pdf, lopdf::Error>| #[trigger]
            loads_as(bytes, a) && #[trigger] loads_as(bytes, b) ==> a == b,
    ensures
        same_outcome(one, other),
{
    let renamed = Recipient { name, ..recipient };
    let remarked = Options { visible, ..options };
    let (read, one_dates): (Result<Pdf, lopdf::Error>, StampDates) = choose|
        read: Result<Pdf, lopdf::Error>,
        dates: StampDates,
    |
        #![trigger loads_as(bytes, read), are_dates_for(dates, options)]
        loads_as(bytes, read) && are_dates_for(dates, options) && match read {
            Ok(pdf) => is_copy_if_room(one, pdf, recipient, options, dates),
            Err(error) => one == Err::<Vec<u8>, Error>(Error::InvalidInput(error)),
        };
    let (again, other_dates): (Result<Pdf, lopdf::Error>, StampDates) = choose|
        read: Result<Pdf, lopdf::Error>,
        dates: StampDates,
    |
        #![trigger loads_as(bytes, read), are_dates_for(dates, remarked)]
        loads_as(bytes, read) && are_dates_for(dates, remarked) && match read {
            Ok(pdf) => is_copy_if_room(other, pdf, renamed, remarked, dates),
            Err(error) => other == Err::<Vec<u8>, Error>(Error::InvalidInput(error)),
        };
    assert(read == again);
    if let Ok(pdf) = read {
        law_watermark_and_name_do_not_show(pdf, recipient, name, options, visible, other_dates);
        law_dates_show_only_on_request(pdf, recipient, options, one_dates, other_dates);
    }
}

} // verus!
