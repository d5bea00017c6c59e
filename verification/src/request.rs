//! What a delivery request on the command line asks for.

use crate::settings::{FreshnessCheck, InvisibleMetadata, Options, VisibleWatermark};
use vstd::prelude::*;

verus! {

/// The freshness check that a request asks for: one that gives the URL, the
/// document's identifier and its version; none where any of the three is
/// missing.
pub fn requested_check(
    url: Option<String>,
    doc_id: Option<String>,
    doc_version: Option<String>,
) -> (check: Option<FreshnessCheck>)
    ensures
        check is Some <==> url is Some && doc_id is Some && doc_version is Some,
        check matches Some(check) ==> {
            &&& check.url_template == url->0
            &&& check.doc_id == doc_id->0
            &&& check.doc_version == doc_version->0
            &&& check.outdated_message@
                == "This document is out of date. Please download the latest version from your portal."@
        },
{
    match (url, doc_id, doc_version) {
        (Some(url), Some(doc_id), Some(doc_version)) => Some(
            FreshnessCheck::new(url, doc_id, doc_version),
        ),
        _ => None,
    }
}

/// The options of a request: the standard watermark unless it is declined,
/// the recipient's identifier and the date always, the email if there is one,
/// and the original creation date.
pub fn requested_options(
    no_visible: bool,
    has_email: bool,
    freshness: Option<FreshnessCheck>,
) -> (options: Options)
    ensures
        no_visible ==> options.visible is None,
        !no_visible ==> (options.visible matches Some(watermark) && watermark.is_default()),
        options.invisible == (InvisibleMetadata {
            recipient_id: true,
            recipient_email: has_email,
            stamped_at: true,
        }),
        options.freshness == freshness,
        !options.stamp_creation_date,
{
    Options {
        visible: if no_visible {
            None
        } else {
            Some(VisibleWatermark::default())
        },
        invisible: InvisibleMetadata {
            recipient_id: true,
            recipient_email: has_email,
            stamped_at: true,
        },
        freshness,
        stamp_creation_date: false,
    }
}

} // verus!
