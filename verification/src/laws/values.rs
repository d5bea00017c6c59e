//! What a request, a default and a date hold: stated of the calls themselves.

use crate::clock::{clock_gave, current_pdf_date, date_or_epoch, is_clock_date};
use crate::request::{requested_check, requested_options};
use crate::settings::{FreshnessCheck, InvisibleMetadata, Options, Recipient, VisibleWatermark};
use vstd::prelude::*;

verus! {

/// The sign bit of a single-precision number.
pub open spec fn is_negative(bits: u32) -> bool {
    bits >= 0x8000_0000
}

/// The binary exponent of the last place of a normal single-precision number:
/// its size is `significand(bits)` times two to this power.
pub open spec fn last_place(bits: u32) -> int {
    (bits as int / 0x80_0000) % 256 - 150
}

/// The significand of a normal single-precision number, as a whole number.
pub open spec fn significand(bits: u32) -> int {
    0x80_0000 + bits as int % 0x80_0000
}

/// The standard watermark reads `Confidential` and the recipient's name, in
/// light grey at 36 points, turned by -30 degrees, at the single-precision
/// opacity that is nearest to 0.18.
pub proof fn law_default_watermark(watermark: VisibleWatermark)
    requires
        call_ensures(VisibleWatermark::default, (), watermark),
    ensures
        watermark.template@ == "Confidential — {name}"@,
        watermark.color == (180u8, 180u8, 180u8),
        !is_negative(watermark.font_size.bits),
        last_place(watermark.font_size.bits) == -18,
        significand(watermark.font_size.bits) == 36 * 0x4_0000,
        is_negative(watermark.rotation_deg.bits),
        last_place(watermark.rotation_deg.bits) == -19,
        significand(watermark.rotation_deg.bits) == 30 * 0x8_0000,
        !is_negative(watermark.opacity.bits),
        last_place(watermark.opacity.bits) == -26,
        -50 <= 100 * significand(watermark.opacity.bits) - 18 * 0x400_0000 <= 50,
{
}

/// The standard options ask for the standard watermark and for nothing else.
pub proof fn law_default_options(options: Options, watermark: VisibleWatermark)
    requires
        call_ensures(Options::default, (), options),
        call_ensures(VisibleWatermark::default, (), watermark),
    ensures
        options.visible is Some,
        options.visible->0.template@ == watermark.template@,
        options.visible->0.font_size == watermark.font_size,
        options.visible->0.opacity == watermark.opacity,
        options.visible->0.rotation_deg == watermark.rotation_deg,
        options.visible->0.color == watermark.color,
        !options.invisible.recipient_id,
        !options.invisible.recipient_email,
        !options.invisible.stamped_at,
        options.freshness is None,
        !options.stamp_creation_date,
{
}

/// The standard metadata is none.
pub proof fn law_default_metadata(flags: InvisibleMetadata)
    requires
        call_ensures(InvisibleMetadata::default, (), flags),
    ensures
        !flags.recipient_id,
        !flags.recipient_email,
        !flags.stamped_at,
{
}

/// A request has its copy name the recipient and the time always, and the
/// email exactly where there is one; it keeps the creation date, shows the
/// standard watermark unless that is declined, and asks for the check that it
/// is given.
pub proof fn law_request_options(
    no_visible: bool,
    has_email: bool,
    freshness: Option<FreshnessCheck>,
    options: Options,
    standard: VisibleWatermark,
)
    requires
        call_ensures(requested_options, (no_visible, has_email, freshness), options),
        call_ensures(VisibleWatermark::default, (), standard),
    ensures
        options.invisible.recipient_id,
        options.invisible.stamped_at,
        options.invisible.recipient_email == has_email,
        !options.stamp_creation_date,
        options.freshness == freshness,
        options.visible is None <==> no_visible,
        options.visible matches Some(watermark) ==> {
            &&& watermark.template@ == standard.template@
            &&& watermark.font_size == standard.font_size
            &&& watermark.opacity == standard.opacity
            &&& watermark.rotation_deg == standard.rotation_deg
            &&& watermark.color == standard.color
        },
{
}

/// A request asks for a check exactly where it gives all three parts of one,
/// and then for that one.
pub proof fn law_request_check(
    url: Option<String>,
    doc_id: Option<String>,
    doc_version: Option<String>,
    check: Option<FreshnessCheck>,
)
    requires
        call_ensures(requested_check, (url, doc_id, doc_version), check),
    ensures
        check is None <==> url is None || doc_id is None || doc_version is None,
        check is Some ==> check->0.url_template@ == url->0@,
        check is Some ==> check->0.doc_id@ == doc_id->0@,
        check is Some ==> check->0.doc_version@ == doc_version->0@,
        check is Some ==> check->0.outdated_message@
            == "This document is out of date. Please download the latest version from your portal."@,
{
}

/// A new check takes its three parts in their order, with the standard
/// message.
pub proof fn law_new_check(
    url_template: String,
    doc_id: String,
    doc_version: String,
    check: FreshnessCheck,
)
    requires
        call_ensures(FreshnessCheck::new, (url_template, doc_id, doc_version), check),
    ensures
        check.url_template@ == url_template@,
        check.doc_id@ == doc_id@,
        check.doc_version@ == doc_version@,
        check.outdated_message@
            == "This document is out of date. Please download the latest version from your portal."@,
{
}

/// The current date is what the clock gave, or the start of 1970 where the
/// clock's time could not be written.
pub proof fn law_date_comes_from_the_clock(date: String)
    requires
        call_ensures(current_pdf_date, (), date),
    ensures
        exists|formatted: Option<String>| #[trigger]
            clock_gave(formatted) && date@ == match formatted {
                Some(text) => text@,
                None => "1970-01-01T00:00:00Z"@,
            },
{
    assert(is_clock_date(date@));
}

/// A time that could be written is handed on as it is; else it is the start
/// of 1970.
pub proof fn law_date_or_epoch(formatted: Option<String>, date: String)
    requires
        call_ensures(date_or_epoch, (formatted,), date),
    ensures
        formatted matches Some(text) ==> date@ == text@,
        formatted is None ==> date@ == "1970-01-01T00:00:00Z"@,
{
}

/// A clone is the same recipient.
pub proof fn law_recipient_clone(recipient: Recipient, copy: Recipient)
    requires
        call_ensures(Recipient::clone, (&recipient,), copy),
    ensures
        copy == recipient,
{
}

/// A clone is the same options.
pub proof fn law_options_clone(options: Options, copy: Options)
    requires
        call_ensures(Options::clone, (&options,), copy),
    ensures
        copy == options,
{
}

/// A clone is the same check.
pub proof fn law_check_clone(check: FreshnessCheck, copy: FreshnessCheck)
    requires
        call_ensures(FreshnessCheck::clone, (&check,), copy),
    ensures
        copy == check,
{
}

/// A clone is the same watermark.
pub proof fn law_watermark_clone(watermark: VisibleWatermark, copy: VisibleWatermark)
    requires
        call_ensures(VisibleWatermark::clone, (&watermark,), copy),
    ensures
        copy == watermark,
{
}

} // verus!
