//! What the stamp does to a document, entry by entry: stated of the calls
//! themselves, and of a whole pass.

use crate::document::pdf_of;
use crate::freshness::{
    action_entries, apply_freshness_check, check_script, freshness_applied, with_action,
};
use crate::laws::dictionary::{law_lookup_after_set, lemma_position_bounds};
use crate::laws::metadata::{lemma_stamp_keys, lemma_stamped_lookup, lemma_with_info};
use crate::laws::pass::{lemma_action_entries, lemma_stamped};
use crate::metadata::{
    apply_invisible_metadata, info_id, metadata_stamped, set_text, stamp_key,
    stamped_email, stamped_entries, text_if, with_info, StampDates,
};
use crate::model::{lookup, name_value, set_entry, text_value, Entries, ObjectId, Pdf, Value};
use crate::settings::{Error, FreshnessCheck, InvisibleMetadata, Options, Recipient};
use crate::stamp::{has_room, personalised};
use vstd::prelude::*;
use vstd::utf8::encode_utf8;

verus! {

/// A value put under a key touches no entry under another key, and leaves
/// every entry in its place.
proof fn lemma_set_in_place(entries: Entries, name: Seq<char>, value: Value)
    ensures
        ({
            let after = set_entry(entries, name, value);
            &&& after.len() >= entries.len()
            &&& forall|i: int|
                0 <= i < entries.len() ==> #[trigger] after[i].0 == entries[i].0 && (after[i].1
                    == entries[i].1 || after[i].0 == encode_utf8(name))
            &&& forall|i: int|
                entries.len() <= i < after.len() ==> #[trigger] after[i].0 == encode_utf8(name)
        }),
{
    lemma_position_bounds(entries, encode_utf8(name));
}

/// The stamp's entries touch no entry under another key, and leave every
/// entry in its place.
proof fn lemma_stamp_in_place(
    entries: Entries,
    recipient: Recipient,
    flags: InvisibleMetadata,
    stamp_creation_date: bool,
    dates: StampDates,
)
    ensures
        ({
            let after = stamped_entries(entries, recipient, flags, stamp_creation_date, dates);
            &&& after.len() >= entries.len()
            &&& forall|i: int|
                0 <= i < entries.len() ==> #[trigger] after[i].0 == entries[i].0 && (after[i].1
                    == entries[i].1 || after[i].0 == encode_utf8("Stamp.RecipientID"@)
                    || after[i].0 == encode_utf8("Stamp.RecipientEmail"@) || after[i].0
                    == encode_utf8("Stamp.StampedAt"@) || after[i].0 == encode_utf8(
                    "CreationDate"@,
                ))
            &&& forall|i: int|
                entries.len() <= i < after.len() ==> #[trigger] after[i].0 == encode_utf8(
                    "Stamp.RecipientID"@,
                ) || after[i].0 == encode_utf8("Stamp.RecipientEmail"@) || after[i].0
                    == encode_utf8("Stamp.StampedAt"@) || after[i].0 == encode_utf8(
                    "CreationDate"@,
                )
        }),
{
    lemma_stamp_keys();
    let id = text_if(flags.recipient_id, recipient.identifier@);
    let email = stamped_email(recipient, flags);
    let stamped_at = text_if(flags.stamped_at, dates.stamped_at@);
    let created_at = text_if(stamp_creation_date, dates.created_at@);
    let with_id = set_text(entries, stamp_key("RecipientID"@), id);
    let with_email = set_text(with_id, stamp_key("RecipientEmail"@), email);
    let with_date = set_text(with_email, stamp_key("StampedAt"@), stamped_at);
    if let Some(text) = id {
        lemma_set_in_place(entries, stamp_key("RecipientID"@), text_value(text));
    }
    if let Some(text) = email {
        lemma_set_in_place(with_id, stamp_key("RecipientEmail"@), text_value(text));
    }
    if let Some(text) = stamped_at {
        lemma_set_in_place(with_email, stamp_key("StampedAt"@), text_value(text));
    }
    if let Some(text) = created_at {
        lemma_set_in_place(with_date, "CreationDate"@, text_value(text));
    }
    let after = stamped_entries(entries, recipient, flags, stamp_creation_date, dates);
    assert forall|i: int| 0 <= i < entries.len() implies #[trigger] after[i].0 == entries[i].0 && (
    after[i].1 == entries[i].1 || after[i].0 == encode_utf8("Stamp.RecipientID"@) || after[i].0
        == encode_utf8("Stamp.RecipientEmail"@) || after[i].0 == encode_utf8("Stamp.StampedAt"@)
        || after[i].0 == encode_utf8("CreationDate"@)) by {
        assert(with_id[i].0 == entries[i].0);
        assert(with_email[i].0 == with_id[i].0);
        assert(with_date[i].0 == with_email[i].0);
        assert(after[i].0 == with_date[i].0);
    }
    assert forall|i: int| entries.len() <= i < after.len() implies #[trigger] after[i].0
        == encode_utf8("Stamp.RecipientID"@) || after[i].0 == encode_utf8("Stamp.RecipientEmail"@)
        || after[i].0 == encode_utf8("Stamp.StampedAt"@) || after[i].0 == encode_utf8(
        "CreationDate"@,
    ) by {
        if i < with_date.len() {
            assert(after[i].0 == with_date[i].0);
            if i < with_email.len() {
                assert(with_date[i].0 == with_email[i].0);
                if i < with_id.len() {
                    assert(with_email[i].0 == with_id[i].0);
                }
            }
        }
    }
}

/// The metadata stamp succeeds exactly where the trailer does not refer to an
/// `/Info` object, or refers to a dictionary; it changes nothing where it
/// fails, and says that `/Info` is no dictionary.
pub proof fn law_metadata_call_outcome(
    document: &mut lopdf::Document,
    recipient: Recipient,
    flags: InvisibleMetadata,
    stamp_creation_date: bool,
    dates: StampDates,
    outcome: Result<(), Error>,
)
    requires
        call_ensures(
            apply_invisible_metadata,
            (document, &recipient, &flags, stamp_creation_date, &dates),
            outcome,
        ),
    ensures
        outcome is Ok <==> (lookup(pdf_of(*old(document)).trailer, "Info"@) matches Some(
            Value::Reference(id),
        ) ==> pdf_of(*old(document)).dictionary(id) is Some),
        outcome is Err ==> (outcome->Err_0 matches Error::Structure(message) && message@
            == "/Info reference does not point at a dictionary"@) && pdf_of(*final(document))
            == pdf_of(*old(document)),
{
    lemma_with_info(pdf_of(*old(document)));
}

/// After a successful metadata stamp the trailer refers to an `/Info`
/// dictionary in which each field that the flags ask for, and that the
/// recipient has, is a literal string with the recipient's own text, and each
/// other field is what it was. `before` are the entries that `/Info` had, as
/// an object or in the trailer itself.
pub proof fn law_metadata_call_writes_what_is_asked_for(
    document: &mut lopdf::Document,
    recipient: Recipient,
    flags: InvisibleMetadata,
    stamp_creation_date: bool,
    dates: StampDates,
    outcome: Result<(), Error>,
    before: Entries,
)
    requires
        call_ensures(
            apply_invisible_metadata,
            (document, &recipient, &flags, stamp_creation_date, &dates),
            outcome,
        ),
        outcome is Ok,
        match lookup(pdf_of(*old(document)).trailer, "Info"@) {
            Some(Value::Reference(id)) => pdf_of(*old(document)).dictionary(id) == Some(before),
            Some(Value::Dictionary(entries)) => before == entries,
            _ => before.len() == 0,
        },
    ensures
        ({
            let stamped = pdf_of(*final(document));
            let id = lookup(stamped.trailer, "Info"@)->0->Reference_0;
            let after = stamped.dictionary(id)->0;
            &&& lookup(stamped.trailer, "Info"@) == Some(Value::Reference(id))
            &&& stamped.dictionary(id) is Some
            &&& lookup(after, "Stamp.RecipientID"@) == if flags.recipient_id {
                Some(text_value(recipient.identifier@))
            } else {
                lookup(before, "Stamp.RecipientID"@)
            }
            &&& lookup(after, "Stamp.RecipientEmail"@) == if flags.recipient_email
                && recipient.email is Some {
                Some(text_value(recipient.email->0@))
            } else {
                lookup(before, "Stamp.RecipientEmail"@)
            }
            &&& lookup(after, "Stamp.StampedAt"@) == if flags.stamped_at {
                Some(text_value(dates.stamped_at@))
            } else {
                lookup(before, "Stamp.StampedAt"@)
            }
            &&& lookup(after, "CreationDate"@) == if stamp_creation_date {
                Some(text_value(dates.created_at@))
            } else {
                lookup(before, "CreationDate"@)
            }
        }),
{
    let pdf = pdf_of(*old(document));
    lemma_with_info(pdf);
    lemma_stamp_keys();
    let start = with_info(pdf).dictionary(info_id(pdf))->0;
    assert(start =~= before);
    lemma_stamped_lookup(
        before,
        recipient,
        flags,
        stamp_creation_date,
        dates,
        "Stamp.RecipientID"@,
    );
    lemma_stamped_lookup(
        before,
        recipient,
        flags,
        stamp_creation_date,
        dates,
        "Stamp.RecipientEmail"@,
    );
    lemma_stamped_lookup(
        before,
        recipient,
        flags,
        stamp_creation_date,
        dates,
        "Stamp.StampedAt"@,
    );
    lemma_stamped_lookup(before, recipient, flags, stamp_creation_date, dates, "CreationDate"@);
    let stamped = pdf_of(*final(document));
    assert(stamped.trailer == with_info(pdf).trailer);
    assert(with_info(pdf).trailer_reference("Info"@) == Some(info_id(pdf)));
}

/// A successful metadata stamp touches nothing else: every other entry of
/// `/Info` keeps its place and its value, every other object stays, the
/// trailer changes in its `/Info` entry at most, and the document's other
/// properties stay but for the number of an `/Info` object that was added.
pub proof fn law_metadata_call_leaves_the_rest(
    document: &mut lopdf::Document,
    recipient: Recipient,
    flags: InvisibleMetadata,
    stamp_creation_date: bool,
    dates: StampDates,
    outcome: Result<(), Error>,
    before: Entries,
)
    requires
        call_ensures(
            apply_invisible_metadata,
            (document, &recipient, &flags, stamp_creation_date, &dates),
            outcome,
        ),
        outcome is Ok,
        lookup(pdf_of(*old(document)).trailer, "Info"@) matches Some(Value::Reference(_)) || pdf_of(
            *old(document),
        ).max_id < u32::MAX,
        match lookup(pdf_of(*old(document)).trailer, "Info"@) {
            Some(Value::Reference(id)) => pdf_of(*old(document)).dictionary(id) == Some(before),
            Some(Value::Dictionary(entries)) => before == entries,
            _ => before.len() == 0,
        },
    ensures
        ({
            let pdf = pdf_of(*old(document));
            let stamped = pdf_of(*final(document));
            let id = lookup(stamped.trailer, "Info"@)->0->Reference_0;
            let after = stamped.dictionary(id)->0;
            &&& after.len() >= before.len()
            &&& forall|i: int|
                0 <= i < before.len() ==> #[trigger] after[i].0 == before[i].0 && (after[i].1
                    == before[i].1 || after[i].0 == encode_utf8("Stamp.RecipientID"@) || after[i].0
                    == encode_utf8("Stamp.RecipientEmail"@) || after[i].0 == encode_utf8(
                    "Stamp.StampedAt"@,
                ) || after[i].0 == encode_utf8("CreationDate"@))
            &&& forall|i: int|
                before.len() <= i < after.len() ==> #[trigger] after[i].0 == encode_utf8(
                    "Stamp.RecipientID"@,
                ) || after[i].0 == encode_utf8("Stamp.RecipientEmail"@) || after[i].0
                    == encode_utf8("Stamp.StampedAt"@) || after[i].0 == encode_utf8(
                    "CreationDate"@,
                )
            &&& stamped.objects.remove(id) == pdf.objects.remove(id)
            &&& match lookup(pdf.trailer, "Info"@) {
                Some(Value::Reference(referred)) => {
                    &&& id == referred
                    &&& stamped.trailer == pdf.trailer
                    &&& stamped.max_id == pdf.max_id
                },
                _ => {
                    &&& id == ((pdf.max_id + 1) as u32, 0u16)
                    &&& stamped.trailer == set_entry(pdf.trailer, "Info"@, Value::Reference(id))
                    &&& stamped.max_id == pdf.max_id + 1
                },
            }
            &&& stamped.version == pdf.version
            &&& stamped.binary_mark == pdf.binary_mark
            &&& stamped.cross_reference_stream == pdf.cross_reference_stream
        }),
{
    let pdf = pdf_of(*old(document));
    let stamped = pdf_of(*final(document));
    lemma_with_info(pdf);
    let start = with_info(pdf).dictionary(info_id(pdf))->0;
    assert(start =~= before);
    lemma_stamp_in_place(before, recipient, flags, stamp_creation_date, dates);
    assert(stamped.trailer == with_info(pdf).trailer);
    assert(with_info(pdf).trailer_reference("Info"@) == Some(info_id(pdf)));
    assert(stamped.objects.remove(info_id(pdf)) =~= pdf.objects.remove(info_id(pdf)));
}

/// The freshness check goes in exactly where the trailer refers to a catalog;
/// a reference to the object that the check's action becomes counts. Where it
/// does not go in, the error says which part is missing, and the document has
/// gained an action at most.
pub proof fn law_check_call_outcome(
    document: &mut lopdf::Document,
    check: FreshnessCheck,
    outcome: Result<(), Error>,
)
    requires
        call_ensures(apply_freshness_check, (document, &check), outcome),
        pdf_of(*old(document)).max_id < u32::MAX,
    ensures
        outcome is Ok <==> (lookup(pdf_of(*old(document)).trailer, "Root"@) matches Some(
            Value::Reference(root),
        ) && (pdf_of(*old(document)).dictionary(root) is Some || root == ((pdf_of(
            *old(document),
        ).max_id + 1) as u32, 0u16))),
        outcome is Err ==> (outcome->Err_0 matches Error::Structure(message) && message@ == if
        lookup(pdf_of(*old(document)).trailer, "Root"@) matches Some(Value::Reference(_)) {
            "/Root is not a dictionary"@
        } else {
            "trailer /Root missing"@
        }),
        outcome is Err ==> {
            let pdf = pdf_of(*old(document));
            let left = pdf_of(*final(document));
            let action = ((pdf.max_id + 1) as u32, 0u16);
            left.trailer == pdf.trailer && left.objects.remove(action) == pdf.objects.remove(action)
        },
{
    let pdf = pdf_of(*old(document));
    if outcome is Err {
        assert(with_action(pdf, check).objects.remove(pdf.next_id()) =~= pdf.objects.remove(
            pdf.next_id(),
        ));
    }
}

/// A freshness check that goes in makes the catalog open with a new object,
/// an action that runs the check's script and holds nothing else.
pub proof fn law_check_call_runs_the_script_on_opening(
    document: &mut lopdf::Document,
    check: FreshnessCheck,
    outcome: Result<(), Error>,
)
    requires
        call_ensures(apply_freshness_check, (document, &check), outcome),
        outcome is Ok,
        pdf_of(*old(document)).well_formed(),
        pdf_of(*old(document)).max_id < u32::MAX,
    ensures
        ({
            let pdf = pdf_of(*old(document));
            let applied = pdf_of(*final(document));
            let root = lookup(pdf.trailer, "Root"@)->0->Reference_0;
            let action = lookup(applied.dictionary(root)->0, "OpenAction"@)->0->Reference_0;
            let runner = applied.dictionary(action)->0;
            &&& lookup(pdf.trailer, "Root"@) == Some(Value::Reference(root))
            &&& applied.dictionary(root) is Some
            &&& lookup(applied.dictionary(root)->0, "OpenAction"@) == Some(
                Value::Reference(action),
            )
            &&& !pdf.objects.contains_key(action)
            &&& applied.dictionary(action) is Some
            &&& lookup(runner, "Type"@) == Some(name_value("Action"@))
            &&& lookup(runner, "S"@) == Some(name_value("JavaScript"@))
            &&& lookup(runner, "JS"@) == Some(text_value(check_script(check)))
            &&& forall|i: int|
                0 <= i < runner.len() ==> #[trigger] runner[i].0 == encode_utf8("Type"@)
                    || runner[i].0 == encode_utf8("S"@) || runner[i].0 == encode_utf8("JS"@)
                    || runner[i].0 == encode_utf8("OpenAction"@)
        }),
{
    let pdf = pdf_of(*old(document));
    lemma_check_installed(pdf, check);
}

/// A freshness check that goes in touches nothing else: every other entry of
/// the catalog keeps its place and its value, every other object stays, and
/// so do the trailer and the document's other properties but for the number
/// of the action.
pub proof fn law_check_call_leaves_the_rest(
    document: &mut lopdf::Document,
    check: FreshnessCheck,
    outcome: Result<(), Error>,
)
    requires
        call_ensures(apply_freshness_check, (document, &check), outcome),
        outcome is Ok,
        pdf_of(*old(document)).well_formed(),
        pdf_of(*old(document)).max_id < u32::MAX,
    ensures
        ({
            let pdf = pdf_of(*old(document));
            let applied = pdf_of(*final(document));
            let root = lookup(pdf.trailer, "Root"@)->0->Reference_0;
            let before = pdf.dictionary(root)->0;
            let after = applied.dictionary(root)->0;
            let action = lookup(after, "OpenAction"@)->0->Reference_0;
            &&& pdf.dictionary(root) is Some ==> {
                &&& after.len() >= before.len()
                &&& forall|i: int|
                    0 <= i < before.len() ==> #[trigger] after[i].0 == before[i].0 && (after[i].1
                        == before[i].1 || after[i].0 == encode_utf8("OpenAction"@))
                &&& forall|i: int|
                    before.len() <= i < after.len() ==> #[trigger] after[i].0 == encode_utf8(
                        "OpenAction"@,
                    )
            }
            &&& applied.objects.remove(action).remove(root) == pdf.objects.remove(action).remove(
                root,
            )
            &&& applied.trailer == pdf.trailer
            &&& applied.version == pdf.version
            &&& applied.binary_mark == pdf.binary_mark
            &&& applied.cross_reference_stream == pdf.cross_reference_stream
            &&& applied.max_id == pdf.max_id + 1
        }),
{
    let pdf = pdf_of(*old(document));
    lemma_check_installed(pdf, check);
}

/// What a document holds once the check is installed.
proof fn lemma_check_installed(pdf: Pdf, check: FreshnessCheck)
    requires
        pdf.well_formed(),
        pdf.max_id < u32::MAX,
        freshness_applied(pdf, check) is Ok,
    ensures
        ({
            let applied = freshness_applied(pdf, check)->Ok_0;
            let root = lookup(pdf.trailer, "Root"@)->0->Reference_0;
            let action = ((pdf.max_id + 1) as u32, 0u16);
            let before = pdf.dictionary(root)->0;
            let after = applied.dictionary(root)->0;
            let runner = applied.dictionary(action)->0;
            &&& lookup(pdf.trailer, "Root"@) == Some(Value::Reference(root))
            &&& applied.dictionary(root) is Some
            &&& lookup(after, "OpenAction"@) == Some(Value::Reference(action))
            &&& !pdf.objects.contains_key(action)
            &&& root != action ==> pdf.dictionary(root) is Some
            &&& applied.dictionary(action) is Some
            &&& lookup(runner, "Type"@) == Some(name_value("Action"@))
            &&& lookup(runner, "S"@) == Some(name_value("JavaScript"@))
            &&& lookup(runner, "JS"@) == Some(text_value(check_script(check)))
            &&& forall|i: int|
                0 <= i < runner.len() ==> #[trigger] runner[i].0 == encode_utf8("Type"@)
                    || runner[i].0 == encode_utf8("S"@) || runner[i].0 == encode_utf8("JS"@)
                    || runner[i].0 == encode_utf8("OpenAction"@)
            &&& pdf.dictionary(root) is Some ==> after == set_entry(
                before,
                "OpenAction"@,
                Value::Reference(action),
            )
            &&& pdf.dictionary(root) is Some ==> after.len() >= before.len()
            &&& pdf.dictionary(root) is Some ==> forall|i: int|
                0 <= i < before.len() ==> #[trigger] after[i].0 == before[i].0 && (after[i].1
                    == before[i].1 || after[i].0 == encode_utf8("OpenAction"@))
            &&& pdf.dictionary(root) is Some ==> forall|i: int|
                before.len() <= i < after.len() ==> #[trigger] after[i].0 == encode_utf8(
                    "OpenAction"@,
                )
            &&& applied.objects.remove(action).remove(root) == pdf.objects.remove(action).remove(
                root,
            )
            &&& applied.trailer == pdf.trailer
            &&& applied.version == pdf.version
            &&& applied.binary_mark == pdf.binary_mark
            &&& applied.cross_reference_stream == pdf.cross_reference_stream
            &&& applied.max_id == pdf.max_id + 1
            &&& forall|id: ObjectId| #[trigger]
                applied.objects.contains_key(id) <==> pdf.objects.contains_key(id) || id == action
        }),
{
    let applied = freshness_applied(pdf, check)->Ok_0;
    let root = lookup(pdf.trailer, "Root"@)->0->Reference_0;
    let action = pdf.next_id();
    let open = Value::Reference(action);
    let acting = with_action(pdf, check);
    let catalog = acting.dictionary(root)->0;
    assert(acting.trailer_reference("Root"@) == Some(root));
    lemma_action_entries(check);
    law_lookup_after_set(catalog, "OpenAction"@, open, "OpenAction"@);
    lemma_set_in_place(catalog, "OpenAction"@, open);
    reveal_strlit("OpenAction");
    reveal_strlit("Type");
    reveal_strlit("S");
    reveal_strlit("JS");
    law_lookup_after_set(action_entries(check), "OpenAction"@, open, "Type"@);
    law_lookup_after_set(action_entries(check), "OpenAction"@, open, "S"@);
    law_lookup_after_set(action_entries(check), "OpenAction"@, open, "JS"@);
    let kind = name_value("Action"@);
    let language = name_value("JavaScript"@);
    let typed = set_entry(Seq::empty(), "Type"@, kind);
    let spoken = set_entry(typed, "S"@, language);
    lemma_set_in_place(Seq::empty(), "Type"@, kind);
    lemma_set_in_place(typed, "S"@, language);
    lemma_set_in_place(spoken, "JS"@, text_value(check_script(check)));
    lemma_set_in_place(action_entries(check), "OpenAction"@, open);
    let plain = action_entries(check);
    assert forall|i: int| 0 <= i < plain.len() implies #[trigger] plain[i].0 == encode_utf8(
        "Type"@,
    ) || plain[i].0 == encode_utf8("S"@) || plain[i].0 == encode_utf8("JS"@) by {
        if i < spoken.len() {
            assert(plain[i].0 == spoken[i].0);
            if i < typed.len() {
                assert(spoken[i].0 == typed[i].0);
            }
        }
    }
    let runner = applied.dictionary(action)->0;
    assert forall|i: int| 0 <= i < runner.len() implies #[trigger] runner[i].0 == encode_utf8(
        "Type"@,
    ) || runner[i].0 == encode_utf8("S"@) || runner[i].0 == encode_utf8("JS"@) || runner[i].0
        == encode_utf8("OpenAction"@) by {
        if root == action && i < plain.len() {
            assert(runner[i].0 == plain[i].0);
        }
    }
    assert(applied.objects.remove(action).remove(root) =~= pdf.objects.remove(action).remove(root));
}

/// What a pass does, in terms of its two steps.
proof fn lemma_pass_steps(pdf: Pdf, recipient: Recipient, options: Options, dates: StampDates)
    requires
        pdf.well_formed(),
        has_room(pdf, options),
        personalised(pdf, recipient, options, dates) is Ok,
    ensures
        ({
            let stamped = metadata_stamped(
                pdf,
                recipient,
                options.invisible,
                options.stamp_creation_date,
                dates,
            )->Ok_0;
            let copy = personalised(pdf, recipient, options, dates)->Ok_0;
            &&& stamped.well_formed()
            &&& options.freshness is None ==> copy == stamped
            &&& options.freshness matches Some(check) ==> stamped.max_id < u32::MAX
                && freshness_applied(stamped, check) is Ok && copy == freshness_applied(
                stamped,
                check,
            )->Ok_0
            &&& stamped.objects == with_info(pdf).objects.insert(
                info_id(pdf),
                Value::Dictionary(
                    stamped_entries(
                        with_info(pdf).dictionary(info_id(pdf))->0,
                        recipient,
                        options.invisible,
                        options.stamp_creation_date,
                        dates,
                    ),
                ),
            )
            &&& with_info(pdf).dictionary(info_id(pdf)) is Some
            &&& stamped.trailer == with_info(pdf).trailer
            &&& lookup(stamped.trailer, "Info"@) == Some(Value::Reference(info_id(pdf)))
            &&& stamped.max_id == with_info(pdf).max_id
            &&& info_id(pdf).0 <= stamped.max_id
            &&& lookup(pdf.trailer, "Info"@) !is Some || !(lookup(
                pdf.trailer,
                "Info"@,
            )->0 is Reference) ==> pdf.max_id < u32::MAX
        }),
{
    lemma_with_info(pdf);
    lemma_stamped(pdf, recipient, options, dates);
    let stamped = metadata_stamped(
        pdf,
        recipient,
        options.invisible,
        options.stamp_creation_date,
        dates,
    )->Ok_0;
    assert(with_info(pdf).trailer_reference("Info"@) == Some(info_id(pdf)));
    assert(stamped.objects.contains_key(info_id(pdf)));
}

/// A pass leaves the trailer alone but for its `/Info` entry, so the copy
/// still opens with its own catalog. Where the trailer refers to an `/Info`
/// object, it stays as it is altogether.
pub proof fn law_pass_keeps_the_trailer(
    pdf: Pdf,
    recipient: Recipient,
    options: Options,
    dates: StampDates,
)
    requires
        pdf.well_formed(),
        has_room(pdf, options),
        personalised(pdf, recipient, options, dates) is Ok,
    ensures
        ({
            let copy = personalised(pdf, recipient, options, dates)->Ok_0;
            &&& match lookup(pdf.trailer, "Info"@) {
                Some(Value::Reference(_)) => copy.trailer == pdf.trailer,
                _ => copy.trailer == set_entry(
                    pdf.trailer,
                    "Info"@,
                    Value::Reference(((pdf.max_id + 1) as u32, 0u16)),
                ),
            }
            &&& forall|name: Seq<char>|
                name != "Info"@ ==> #[trigger] lookup(copy.trailer, name) == lookup(
                    pdf.trailer,
                    name,
                )
            &&& lookup(copy.trailer, "Root"@) == lookup(pdf.trailer, "Root"@)
            &&& copy.trailer_reference("Root"@) == pdf.trailer_reference("Root"@)
        }),
{
    let copy = personalised(pdf, recipient, options, dates)->Ok_0;
    lemma_pass_steps(pdf, recipient, options, dates);
    if let Some(check) = options.freshness {
        let stamped = metadata_stamped(
            pdf,
            recipient,
            options.invisible,
            options.stamp_creation_date,
            dates,
        )->Ok_0;
        lemma_check_installed(stamped, check);
    }
    let id = Value::Reference(pdf.next_id());
    assert forall|name: Seq<char>| name != "Info"@ implies #[trigger] lookup(copy.trailer, name)
        == lookup(pdf.trailer, name) by {
        law_lookup_after_set(pdf.trailer, "Info"@, id, name);
    }
    reveal_strlit("Root");
    reveal_strlit("Info");
    assert("Root"@[0] != "Info"@[0]);
    assert(lookup(copy.trailer, "Root"@) == lookup(pdf.trailer, "Root"@));
}

/// A pass writes what the options ask for into the `/Info` dictionary that
/// the copy's trailer refers to, each field as a literal string with the
/// recipient's own text, and leaves each other field as it was. `before` are
/// the entries that `/Info` had, as an object or in the trailer itself.
pub proof fn law_pass_writes_what_is_asked_for(
    pdf: Pdf,
    recipient: Recipient,
    options: Options,
    dates: StampDates,
    before: Entries,
)
    requires
        pdf.well_formed(),
        has_room(pdf, options),
        personalised(pdf, recipient, options, dates) is Ok,
        match lookup(pdf.trailer, "Info"@) {
            Some(Value::Reference(id)) => pdf.dictionary(id) == Some(before),
            Some(Value::Dictionary(entries)) => before == entries,
            _ => before.len() == 0,
        },
    ensures
        ({
            let copy = personalised(pdf, recipient, options, dates)->Ok_0;
            let id = lookup(copy.trailer, "Info"@)->0->Reference_0;
            let after = copy.dictionary(id)->0;
            &&& lookup(copy.trailer, "Info"@) == Some(Value::Reference(id))
            &&& copy.dictionary(id) is Some
            &&& lookup(after, "Stamp.RecipientID"@) == if options.invisible.recipient_id {
                Some(text_value(recipient.identifier@))
            } else {
                lookup(before, "Stamp.RecipientID"@)
            }
            &&& lookup(after, "Stamp.RecipientEmail"@) == if options.invisible.recipient_email
                && recipient.email is Some {
                Some(text_value(recipient.email->0@))
            } else {
                lookup(before, "Stamp.RecipientEmail"@)
            }
            &&& lookup(after, "Stamp.StampedAt"@) == if options.invisible.stamped_at {
                Some(text_value(dates.stamped_at@))
            } else {
                lookup(before, "Stamp.StampedAt"@)
            }
            &&& lookup(after, "CreationDate"@) == if options.stamp_creation_date {
                Some(text_value(dates.created_at@))
            } else {
                lookup(before, "CreationDate"@)
            }
        }),
{
    lemma_pass_steps(pdf, recipient, options, dates);
    lemma_with_info(pdf);
    lemma_stamp_keys();
    let flags = options.invisible;
    let dated = options.stamp_creation_date;
    let start = with_info(pdf).dictionary(info_id(pdf))->0;
    assert(start =~= before);
    let after = stamped_entries(before, recipient, flags, dated, dates);
    lemma_stamped_lookup(before, recipient, flags, dated, dates, "Stamp.RecipientID"@);
    lemma_stamped_lookup(before, recipient, flags, dated, dates, "Stamp.RecipientEmail"@);
    lemma_stamped_lookup(before, recipient, flags, dated, dates, "Stamp.StampedAt"@);
    lemma_stamped_lookup(before, recipient, flags, dated, dates, "CreationDate"@);
    let stamped = metadata_stamped(pdf, recipient, flags, dated, dates)->Ok_0;
    assert(stamped.dictionary(info_id(pdf)) == Some(after));
    if let Some(check) = options.freshness {
        lemma_check_installed(stamped, check);
        lemma_other_object(stamped, check, info_id(pdf));
        reveal_strlit("OpenAction");
        let open = Value::Reference(stamped.next_id());
        assert("Stamp.RecipientID"@.len() == 17 && "OpenAction"@.len() == 10);
        law_lookup_after_set(after, "OpenAction"@, open, "Stamp.RecipientID"@);
        law_lookup_after_set(after, "OpenAction"@, open, "Stamp.RecipientEmail"@);
        law_lookup_after_set(after, "OpenAction"@, open, "Stamp.StampedAt"@);
        law_lookup_after_set(after, "OpenAction"@, open, "CreationDate"@);
    }
}

/// An object other than the action and the catalog stays when a check is
/// installed; an object that is the catalog keeps its other entries.
proof fn lemma_other_object(pdf: Pdf, check: FreshnessCheck, id: ObjectId)
    requires
        pdf.well_formed(),
        pdf.max_id < u32::MAX,
        freshness_applied(pdf, check) is Ok,
        pdf.objects.contains_key(id),
    ensures
        ({
            let applied = freshness_applied(pdf, check)->Ok_0;
            &&& applied.objects.contains_key(id)
            &&& lookup(pdf.trailer, "Root"@) != Some(Value::Reference(id))
                ==> applied.objects[id] == pdf.objects[id]
            &&& lookup(pdf.trailer, "Root"@) == Some(Value::Reference(id))
                ==> pdf.dictionary(id) is Some && applied.dictionary(id) == Some(
                set_entry(
                    pdf.dictionary(id)->0,
                    "OpenAction"@,
                    Value::Reference(((pdf.max_id + 1) as u32, 0u16)),
                ),
            )
        }),
{
    lemma_check_installed(pdf, check);
}

/// A pass touches no entry of `/Info` but the stamp's own and, where `/Info`
/// is the catalog and a check is asked for, `OpenAction`; every entry keeps
/// its place.
pub proof fn law_pass_keeps_the_other_entries_of_info(
    pdf: Pdf,
    recipient: Recipient,
    options: Options,
    dates: StampDates,
    before: Entries,
)
    requires
        pdf.well_formed(),
        has_room(pdf, options),
        personalised(pdf, recipient, options, dates) is Ok,
        match lookup(pdf.trailer, "Info"@) {
            Some(Value::Reference(id)) => pdf.dictionary(id) == Some(before),
            Some(Value::Dictionary(entries)) => before == entries,
            _ => before.len() == 0,
        },
    ensures
        ({
            let copy = personalised(pdf, recipient, options, dates)->Ok_0;
            let id = lookup(copy.trailer, "Info"@)->0->Reference_0;
            let after = copy.dictionary(id)->0;
            &&& after.len() >= before.len()
            &&& forall|i: int|
                0 <= i < before.len() ==> #[trigger] after[i].0 == before[i].0 && (after[i].1
                    == before[i].1 || after[i].0 == encode_utf8("Stamp.RecipientID"@) || after[i].0
                    == encode_utf8("Stamp.RecipientEmail"@) || after[i].0 == encode_utf8(
                    "Stamp.StampedAt"@,
                ) || after[i].0 == encode_utf8("CreationDate"@) || (after[i].0 == encode_utf8(
                    "OpenAction"@,
                ) && options.freshness is Some && lookup(pdf.trailer, "Root"@) == Some(
                    Value::Reference(id),
                )))
            &&& forall|i: int|
                before.len() <= i < after.len() ==> #[trigger] after[i].0 == encode_utf8(
                    "Stamp.RecipientID"@,
                ) || after[i].0 == encode_utf8("Stamp.RecipientEmail"@) || after[i].0
                    == encode_utf8("Stamp.StampedAt"@) || after[i].0 == encode_utf8(
                    "CreationDate"@,
                ) || (after[i].0 == encode_utf8("OpenAction"@) && options.freshness is Some
                    && lookup(pdf.trailer, "Root"@) == Some(Value::Reference(id)))
        }),
{
    lemma_pass_steps(pdf, recipient, options, dates);
    lemma_with_info(pdf);
    law_pass_keeps_the_trailer(pdf, recipient, options, dates);
    let flags = options.invisible;
    let dated = options.stamp_creation_date;
    let start = with_info(pdf).dictionary(info_id(pdf))->0;
    assert(start =~= before);
    lemma_stamp_in_place(before, recipient, flags, dated, dates);
    let middle = stamped_entries(before, recipient, flags, dated, dates);
    let stamped = metadata_stamped(pdf, recipient, flags, dated, dates)->Ok_0;
    assert(stamped.dictionary(info_id(pdf)) == Some(middle));
    let copy = personalised(pdf, recipient, options, dates)->Ok_0;
    let after = copy.dictionary(info_id(pdf))->0;
    if let Some(check) = options.freshness {
        lemma_check_installed(stamped, check);
        lemma_other_object(stamped, check, info_id(pdf));
        let open = Value::Reference(stamped.next_id());
        lemma_set_in_place(middle, "OpenAction"@, open);
        assert forall|i: int| 0 <= i < middle.len() implies #[trigger] after[i].0 == middle[i].0
            by {}
    }
}

/// A pass with a freshness check makes the copy's catalog open with an object
/// that the document did not have, an action that runs the check's script and
/// holds nothing else. A catalog that the document had keeps its other
/// entries in their places, if it is not the `/Info` dictionary too.
pub proof fn law_pass_installs_the_check(
    pdf: Pdf,
    recipient: Recipient,
    options: Options,
    dates: StampDates,
    check: FreshnessCheck,
)
    requires
        pdf.well_formed(),
        has_room(pdf, options),
        personalised(pdf, recipient, options, dates) is Ok,
        options.freshness == Some(check),
    ensures
        ({
            let copy = personalised(pdf, recipient, options, dates)->Ok_0;
            let root = lookup(copy.trailer, "Root"@)->0->Reference_0;
            let catalog = copy.dictionary(root)->0;
            let action = lookup(catalog, "OpenAction"@)->0->Reference_0;
            let runner = copy.dictionary(action)->0;
            &&& lookup(copy.trailer, "Root"@) == Some(Value::Reference(root))
            &&& lookup(pdf.trailer, "Root"@) == Some(Value::Reference(root))
            &&& copy.dictionary(root) is Some
            &&& lookup(catalog, "OpenAction"@) == Some(Value::Reference(action))
            &&& !pdf.objects.contains_key(action)
            &&& lookup(copy.trailer, "Info"@) != Some(Value::Reference(action))
            &&& copy.dictionary(action) is Some
            &&& lookup(runner, "Type"@) == Some(name_value("Action"@))
            &&& lookup(runner, "S"@) == Some(name_value("JavaScript"@))
            &&& lookup(runner, "JS"@) == Some(text_value(check_script(check)))
            &&& forall|i: int|
                0 <= i < runner.len() ==> #[trigger] runner[i].0 == encode_utf8("Type"@)
                    || runner[i].0 == encode_utf8("S"@) || runner[i].0 == encode_utf8("JS"@)
                    || runner[i].0 == encode_utf8("OpenAction"@)
            &&& pdf.objects.contains_key(root) && lookup(copy.trailer, "Info"@) != Some(
                Value::Reference(root),
            ) ==> {
                let before = pdf.dictionary(root)->0;
                &&& pdf.dictionary(root) is Some
                &&& catalog.len() >= before.len()
                &&& forall|i: int|
                    0 <= i < before.len() ==> #[trigger] catalog[i].0 == before[i].0 && (
                    catalog[i].1 == before[i].1 || catalog[i].0 == encode_utf8("OpenAction"@))
                &&& forall|i: int|
                    before.len() <= i < catalog.len() ==> #[trigger] catalog[i].0 == encode_utf8(
                        "OpenAction"@,
                    )
                &&& forall|name: Seq<char>|
                    name != "OpenAction"@ ==> #[trigger] lookup(catalog, name) == lookup(
                        before,
                        name,
                    )
            }
        }),
{
    lemma_pass_steps(pdf, recipient, options, dates);
    lemma_with_info(pdf);
    law_pass_keeps_the_trailer(pdf, recipient, options, dates);
    let stamped = metadata_stamped(
        pdf,
        recipient,
        options.invisible,
        options.stamp_creation_date,
        dates,
    )->Ok_0;
    lemma_check_installed(stamped, check);
    let action = stamped.next_id();
    let root = lookup(pdf.trailer, "Root"@)->0->Reference_0;
    assert(stamped.trailer == personalised(pdf, recipient, options, dates)->Ok_0.trailer);
    assert(!pdf.objects.contains_key(action)) by {
        assert(action.0 > pdf.max_id);
    }
    if pdf.objects.contains_key(root) && root != info_id(pdf) {
        assert(root != action);
        assert(stamped.objects.contains_key(root));
        assert(stamped.objects[root] == pdf.objects[root]);
        let before = pdf.dictionary(root)->0;
        let open = Value::Reference(action);
        assert forall|name: Seq<char>| name != "OpenAction"@ implies #[trigger] lookup(
            set_entry(before, "OpenAction"@, open),
            name,
        ) == lookup(before, name) by {
            law_lookup_after_set(before, "OpenAction"@, open, name);
        }
    }
}

/// A pass changes no object that the document had but its `/Info` dictionary
/// and, for a freshness check, its catalog. It adds an `/Info` dictionary
/// where the trailer refers to none, and an action where a check is asked
/// for, and no other object; it removes none. The document's version, binary
/// mark and kind of cross-reference data stay.
pub proof fn law_pass_keeps_the_other_objects(
    pdf: Pdf,
    recipient: Recipient,
    options: Options,
    dates: StampDates,
    id: ObjectId,
)
    requires
        pdf.well_formed(),
        has_room(pdf, options),
        personalised(pdf, recipient, options, dates) is Ok,
    ensures
        ({
            let copy = personalised(pdf, recipient, options, dates)->Ok_0;
            let for_info: int = if lookup(pdf.trailer, "Info"@) matches Some(
                Value::Reference(_),
            ) {
                0
            } else {
                1
            };
            let for_check: int = if options.freshness is Some {
                1
            } else {
                0
            };
            &&& pdf.objects.contains_key(id) && lookup(copy.trailer, "Info"@) != Some(
                Value::Reference(id),
            ) && (options.freshness is None || lookup(pdf.trailer, "Root"@) != Some(
                Value::Reference(id),
            )) ==> copy.objects.contains_key(id) && copy.objects[id] == pdf.objects[id]
            &&& copy.objects.contains_key(id) <==> pdf.objects.contains_key(id) || (pdf.max_id
                < id.0 <= pdf.max_id + for_info + for_check && id.1 == 0)
            &&& copy.max_id == pdf.max_id + for_info + for_check
            &&& copy.version == pdf.version
            &&& copy.binary_mark == pdf.binary_mark
            &&& copy.cross_reference_stream == pdf.cross_reference_stream
        }),
{
    lemma_pass_steps(pdf, recipient, options, dates);
    lemma_with_info(pdf);
    let stamped = metadata_stamped(
        pdf,
        recipient,
        options.invisible,
        options.stamp_creation_date,
        dates,
    )->Ok_0;
    assert(pdf.objects.contains_key(id) ==> id.0 <= pdf.max_id);
    if let Some(Value::Reference(referred)) = lookup(pdf.trailer, "Info"@) {
        assert(pdf.objects.contains_key(referred));
    }
    assert(stamped.objects.contains_key(id) <==> pdf.objects.contains_key(id) || id == info_id(
        pdf,
    ));
    if let Some(check) = options.freshness {
        lemma_check_installed(stamped, check);
        if stamped.objects.contains_key(id) {
            lemma_other_object(stamped, check, id);
        }
        reveal_strlit("Root");
        reveal_strlit("Info");
        assert("Root"@[0] != "Info"@[0]);
        law_lookup_after_set(
            pdf.trailer,
            "Info"@,
            Value::Reference(pdf.next_id()),
            "Root"@,
        );
    }
}

/// A document can be stamped exactly where its `/Info`, if the trailer refers
/// to one, is a dictionary, and its catalog, if a check is asked for, is one;
/// a reference to an object that the pass adds counts. Otherwise the reason
/// says which part is missing.
pub proof fn law_pass_outcome(
    pdf: Pdf,
    recipient: Recipient,
    options: Options,
    dates: StampDates,
)
    requires
        pdf.well_formed(),
        has_room(pdf, options),
    ensures
        ({
            let outcome = personalised(pdf, recipient, options, dates);
            let for_info: int = if lookup(pdf.trailer, "Info"@) matches Some(
                Value::Reference(_),
            ) {
                0
            } else {
                1
            };
            let info_fits = lookup(pdf.trailer, "Info"@) matches Some(Value::Reference(id))
                ==> pdf.dictionary(id) is Some;
            let root_fits = options.freshness is Some ==> (lookup(pdf.trailer, "Root"@) matches
                Some(Value::Reference(root)) && (pdf.dictionary(root) is Some || (pdf.max_id
                < root.0 <= pdf.max_id + for_info + 1 && root.1 == 0)));
            &&& outcome is Ok <==> info_fits && root_fits
            &&& !info_fits ==> outcome == Err::<Pdf, Seq<char>>(
                "/Info reference does not point at a dictionary"@,
            )
            &&& info_fits && !root_fits ==> outcome == Err::<Pdf, Seq<char>>(
                if lookup(pdf.trailer, "Root"@) matches Some(Value::Reference(_)) {
                    "/Root is not a dictionary"@
                } else {
                    "trailer /Root missing"@
                },
            )
        }),
{
    lemma_with_info(pdf);
    let info_fits = lookup(pdf.trailer, "Info"@) matches Some(Value::Reference(id))
        ==> pdf.dictionary(id) is Some;
    if info_fits && options.freshness is Some {
        lemma_stamped(pdf, recipient, options, dates);
        let stamped = metadata_stamped(
            pdf,
            recipient,
            options.invisible,
            options.stamp_creation_date,
            dates,
        )->Ok_0;
        let check = options.freshness->0;
        reveal_strlit("Root");
        reveal_strlit("Info");
        assert("Root"@[0] != "Info"@[0]);
        law_lookup_after_set(
            pdf.trailer,
            "Info"@,
            Value::Reference(pdf.next_id()),
            "Root"@,
        );
        assert(lookup(stamped.trailer, "Root"@) == lookup(pdf.trailer, "Root"@));
        if let Some(Value::Reference(root)) = lookup(pdf.trailer, "Root"@) {
            let acting = with_action(stamped, check);
            assert(acting.trailer_reference("Root"@) == Some(root));
            if root != info_id(pdf) && root != stamped.next_id() {
                assert(acting.dictionary(root) == pdf.dictionary(root));
            }
            assert(pdf.objects.contains_key(root) ==> root.0 <= pdf.max_id);
        }
    }
}

} // verus!
