//! What a whole personalisation pass does to a document, and what it leaves
//! alone.

use crate::freshness::{action_entries, check_script, freshness_applied, with_action};
use crate::laws::dictionary::{law_lookup_after_set, lemma_bytes_tell_apart};
use crate::laws::metadata::{
    info_entry, law_metadata_is_written, law_metadata_leaves_the_rest, law_metadata_outcome,
    lemma_with_info, text_or,
};
use crate::metadata::{info_id, metadata_stamped, stamped_email, text_if, StampDates};
use crate::model::{lookup, name_value, set_entry, text_value, ObjectId, Pdf, Value};
use crate::settings::{FreshnessCheck, Options, Recipient, VisibleWatermark};
use crate::stamp::{has_room, new_objects, personalised};
use vstd::prelude::*;

verus! {

/// The document between the metadata stamp and the freshness check.
pub proof fn lemma_stamped(pdf: Pdf, recipient: Recipient, options: Options, dates: StampDates)
    requires
        pdf.well_formed(),
        has_room(pdf, options),
        metadata_stamped(
            pdf,
            recipient,
            options.invisible,
            options.stamp_creation_date,
            dates,
        ) is Ok,
    ensures
        ({
            let stamped = metadata_stamped(
                pdf,
                recipient,
                options.invisible,
                options.stamp_creation_date,
                dates,
            )->Ok_0;
            &&& stamped.well_formed()
            &&& options.freshness is Some ==> stamped.max_id < u32::MAX
            &&& stamped.max_id >= pdf.max_id
            &&& stamped.dictionary(info_id(pdf)) is Some
            &&& stamped.trailer_reference("Info"@) == Some(info_id(pdf))
            &&& stamped.trailer_reference("Root"@) == pdf.trailer_reference("Root"@)
        }),
{
    let stamped = metadata_stamped(
        pdf,
        recipient,
        options.invisible,
        options.stamp_creation_date,
        dates,
    )->Ok_0;
    lemma_with_info(pdf);
    law_metadata_outcome(
        pdf,
        recipient,
        options.invisible,
        options.stamp_creation_date,
        dates,
    );
    law_metadata_leaves_the_rest(
        pdf,
        recipient,
        options.invisible,
        options.stamp_creation_date,
        dates,
    );
    reveal_strlit("Root");
    reveal_strlit("Info");
    assert("Root"@[0] != "Info"@[0]);
    assert forall|id: ObjectId| #[trigger] stamped.objects.contains_key(id) implies id.0
        <= stamped.max_id by {
        if id != info_id(pdf) {
            assert(pdf.objects.remove(info_id(pdf)).contains_key(id)
                == stamped.objects.remove(info_id(pdf)).contains_key(id));
            assert(pdf.objects.contains_key(id));
        } else if pdf.trailer_reference("Info"@) is Some {
            assert(pdf.objects.contains_key(id));
        }
    }
}

/// The freshness check goes into a document exactly where its trailer refers
/// to a catalog. A reference to an object that is not there counts if that
/// object is the one that the script's action becomes.
pub proof fn law_freshness_outcome(pdf: Pdf, check: FreshnessCheck)
    requires
        pdf.well_formed(),
        pdf.max_id < u32::MAX,
    ensures
        freshness_applied(pdf, check) is Ok <==> match pdf.trailer_reference("Root"@) {
            Some(root) => pdf.dictionary(root) is Some || root == pdf.next_id(),
            None => false,
        },
{
}

/// The catalog of a document with a freshness check opens with an action that
/// runs the check's script; the rest of the catalog, and every other object,
/// is as before.
pub proof fn law_freshness_is_the_open_action(pdf: Pdf, check: FreshnessCheck, root: ObjectId)
    requires
        pdf.well_formed(),
        pdf.max_id < u32::MAX,
        pdf.trailer_reference("Root"@) == Some(root),
        pdf.dictionary(root) is Some,
    ensures
        ({
            let applied = freshness_applied(pdf, check)->Ok_0;
            let action = pdf.next_id();
            let catalog = applied.dictionary(root)->0;
            let script_runner = applied.dictionary(action)->0;
            &&& freshness_applied(pdf, check) is Ok
            &&& applied.dictionary(root) is Some
            &&& lookup(catalog, "OpenAction"@) == Some(Value::Reference(action))
            &&& forall|name: Seq<char>|
                name != "OpenAction"@ ==> #[trigger] lookup(catalog, name) == lookup(
                    pdf.dictionary(root)->0,
                    name,
                )
            &&& applied.dictionary(action) is Some
            &&& lookup(script_runner, "Type"@) == Some(name_value("Action"@))
            &&& lookup(script_runner, "S"@) == Some(name_value("JavaScript"@))
            &&& lookup(script_runner, "JS"@) == Some(text_value(check_script(check)))
            &&& !pdf.objects.contains_key(action)
            &&& applied.objects.remove(action).remove(root) == pdf.objects.remove(root)
            &&& applied.trailer == pdf.trailer
        }),
{
    let acting = with_action(pdf, check);
    let applied = freshness_applied(pdf, check)->Ok_0;
    let action = pdf.next_id();
    let before = pdf.dictionary(root)->0;
    assert(acting.trailer_reference("Root"@) == Some(root));
    assert(acting.dictionary(root) == Some(before));
    law_lookup_after_set(before, "OpenAction"@, Value::Reference(action), "OpenAction"@);
    assert forall|name: Seq<char>| name != "OpenAction"@ implies #[trigger] lookup(
        set_entry(before, "OpenAction"@, Value::Reference(action)),
        name,
    ) == lookup(before, name) by {
        law_lookup_after_set(before, "OpenAction"@, Value::Reference(action), name);
    }
    lemma_action_entries(check);
    assert(applied.objects.remove(action).remove(root) =~= pdf.objects.remove(root));
}

/// What the action's dictionary holds.
pub proof fn lemma_action_entries(check: FreshnessCheck)
    ensures
        lookup(action_entries(check), "Type"@) == Some(name_value("Action"@)),
        lookup(action_entries(check), "S"@) == Some(name_value("JavaScript"@)),
        lookup(action_entries(check), "JS"@) == Some(text_value(check_script(check))),
{
    reveal_strlit("Type");
    reveal_strlit("S");
    reveal_strlit("JS");
    let kind = name_value("Action"@);
    let language = name_value("JavaScript"@);
    let script = text_value(check_script(check));
    let typed = set_entry(Seq::empty(), "Type"@, kind);
    let spoken = set_entry(typed, "S"@, language);
    law_lookup_after_set(Seq::empty(), "Type"@, kind, "Type"@);
    law_lookup_after_set(typed, "S"@, language, "Type"@);
    law_lookup_after_set(typed, "S"@, language, "S"@);
    law_lookup_after_set(spoken, "JS"@, script, "Type"@);
    law_lookup_after_set(spoken, "JS"@, script, "S"@);
    law_lookup_after_set(spoken, "JS"@, script, "JS"@);
}

/// A document that was read from a file can be stamped and written if its
/// `/Info`, where there is one, and its catalog, where a freshness check is
/// asked for, are dictionaries, and its object numbers are not used up.
pub proof fn law_pass_succeeds(
    pdf: Pdf,
    recipient: Recipient,
    options: Options,
    dates: StampDates,
)
    requires
        pdf.well_formed(),
        pdf.trailer_reference("Info"@) matches Some(id) ==> pdf.dictionary(id) is Some,
        options.freshness is Some ==> (pdf.trailer_reference("Root"@) matches Some(root)
            && pdf.dictionary(root) is Some),
        has_room(pdf, options),
        pdf.cross_reference_stream ==> pdf.max_id + new_objects(pdf, options) < u32::MAX,
    ensures
        personalised(pdf, recipient, options, dates) is Ok,
        personalised(pdf, recipient, options, dates)->Ok_0.savable(),
{
    law_metadata_outcome(
        pdf,
        recipient,
        options.invisible,
        options.stamp_creation_date,
        dates,
    );
    lemma_stamped(pdf, recipient, options, dates);
    law_metadata_leaves_the_rest(
        pdf,
        recipient,
        options.invisible,
        options.stamp_creation_date,
        dates,
    );
    let stamped = metadata_stamped(
        pdf,
        recipient,
        options.invisible,
        options.stamp_creation_date,
        dates,
    )->Ok_0;
    if let Some(check) = options.freshness {
        let root = pdf.trailer_reference("Root"@)->0;
        if root != info_id(pdf) {
            assert(pdf.objects.remove(info_id(pdf)).contains_key(root));
            assert(pdf.objects.remove(info_id(pdf))[root] == stamped.objects.remove(
                info_id(pdf),
            )[root]);
        }
        assert(stamped.dictionary(root) is Some);
        law_freshness_outcome(stamped, check);
    }
}

/// A personalised document names its recipient: its `/Info` dictionary holds
/// the identifier, the email and the dates as far as they were asked for, and
/// else what it held before.
pub proof fn law_copy_is_traceable(
    pdf: Pdf,
    recipient: Recipient,
    options: Options,
    dates: StampDates,
    name: Seq<char>,
)
    requires
        pdf.well_formed(),
        has_room(pdf, options),
        personalised(pdf, recipient, options, dates) is Ok,
        name != "OpenAction"@,
    ensures
        info_entry(personalised(pdf, recipient, options, dates)->Ok_0, name) == if name
            == "Stamp.RecipientID"@ {
            text_or(
                text_if(options.invisible.recipient_id, recipient.identifier@),
                info_entry(pdf, name),
            )
        } else if name == "Stamp.RecipientEmail"@ {
            text_or(stamped_email(recipient, options.invisible), info_entry(pdf, name))
        } else if name == "Stamp.StampedAt"@ {
            text_or(
                text_if(options.invisible.stamped_at, dates.stamped_at@),
                info_entry(pdf, name),
            )
        } else if name == "CreationDate"@ {
            text_or(
                text_if(options.stamp_creation_date, dates.created_at@),
                info_entry(pdf, name),
            )
        } else {
            info_entry(pdf, name)
        },
{
    law_metadata_is_written(
        pdf,
        recipient,
        options.invisible,
        options.stamp_creation_date,
        dates,
        name,
    );
    lemma_stamped(pdf, recipient, options, dates);
    let stamped = metadata_stamped(
        pdf,
        recipient,
        options.invisible,
        options.stamp_creation_date,
        dates,
    )->Ok_0;
    if let Some(check) = options.freshness {
        let root = stamped.trailer_reference("Root"@)->0;
        let catalog = with_action(stamped, check).dictionary(root)->0;
        law_lookup_after_set(
            catalog,
            "OpenAction"@,
            Value::Reference(stamped.next_id()),
            name,
        );
    }
}

/// Copies for recipients with different identifiers differ in the
/// `Stamp.RecipientID` that they carry.
pub proof fn law_copies_tell_recipients_apart(
    pdf: Pdf,
    one: Recipient,
    other: Recipient,
    options: Options,
    one_dates: StampDates,
    other_dates: StampDates,
)
    requires
        pdf.well_formed(),
        has_room(pdf, options),
        options.invisible.recipient_id,
        one.identifier@ != other.identifier@,
        personalised(pdf, one, options, one_dates) is Ok,
        personalised(pdf, other, options, other_dates) is Ok,
    ensures
        info_entry(personalised(pdf, one, options, one_dates)->Ok_0, "Stamp.RecipientID"@)
            != info_entry(
            personalised(pdf, other, options, other_dates)->Ok_0,
            "Stamp.RecipientID"@,
        ),
{
    reveal_strlit("Stamp.RecipientID");
    reveal_strlit("OpenAction");
    law_copy_is_traceable(pdf, one, options, one_dates, "Stamp.RecipientID"@);
    law_copy_is_traceable(pdf, other, options, other_dates, "Stamp.RecipientID"@);
    lemma_bytes_tell_apart(one.identifier@, other.identifier@);
}

/// A pass changes no object that the document had but its `/Info` dictionary
/// and, for a freshness check, its catalog: the pages are not rendered again.
/// The result is as well formed as a document read from a file.
pub proof fn law_pass_leaves_other_objects(
    pdf: Pdf,
    recipient: Recipient,
    options: Options,
    dates: StampDates,
    id: ObjectId,
)
    requires
        pdf.well_formed(),
        has_room(pdf, options),
        personalised(pdf, recipient, options, dates) is Ok,
    ensures
        personalised(pdf, recipient, options, dates)->Ok_0.well_formed(),
        pdf.objects.contains_key(id) && id != info_id(pdf) && (options.freshness is None
            || pdf.trailer_reference("Root"@) != Some(id)) ==> {
            let copy = personalised(pdf, recipient, options, dates)->Ok_0;
            copy.objects.contains_key(id) && copy.objects[id] == pdf.objects[id]
        },
{
    lemma_stamped(pdf, recipient, options, dates);
    law_metadata_leaves_the_rest(
        pdf,
        recipient,
        options.invisible,
        options.stamp_creation_date,
        dates,
    );
    let stamped = metadata_stamped(
        pdf,
        recipient,
        options.invisible,
        options.stamp_creation_date,
        dates,
    )->Ok_0;
    if pdf.objects.contains_key(id) && id != info_id(pdf) {
        assert(pdf.objects.remove(info_id(pdf)).contains_key(id));
        assert(pdf.objects.remove(info_id(pdf))[id] == stamped.objects.remove(info_id(pdf))[id]);
        assert(stamped.objects.contains_key(id));
    }
    if let Some(check) = options.freshness {
        let copy = personalised(pdf, recipient, options, dates)->Ok_0;
        let root = stamped.trailer_reference("Root"@)->0;
        assert(copy.max_id == stamped.max_id + 1);
        assert forall|other: ObjectId| #[trigger] copy.objects.contains_key(other) implies other.0
            <= copy.max_id by {
            if other != root && other != stamped.next_id() {
                assert(stamped.objects.contains_key(other));
            } else if other == root && root != stamped.next_id() {
                assert(stamped.objects.contains_key(root));
            }
        }
    }
}

/// Neither the visible watermark nor the recipient's name shows in the
/// document.
pub proof fn law_watermark_and_name_do_not_show(
    pdf: Pdf,
    recipient: Recipient,
    name: String,
    options: Options,
    visible: Option<VisibleWatermark>,
    dates: StampDates,
)
    ensures
        personalised(
            pdf,
            Recipient { name, ..recipient },
            Options { visible, ..options },
            dates,
        ) == personalised(pdf, recipient, options, dates),
{
}

/// The dates do not show in the document where none is asked for.
pub proof fn law_dates_show_only_on_request(
    pdf: Pdf,
    recipient: Recipient,
    options: Options,
    one: StampDates,
    other: StampDates,
)
    requires
        !options.invisible.stamped_at,
        !options.stamp_creation_date,
    ensures
        personalised(pdf, recipient, options, one) == personalised(pdf, recipient, options, other),
{
}

} // verus!
