//! Who a copy is for, and how it is to be stamped.

use vstd::prelude::*;

verus! {

/// Identity stamped onto a personalised copy. Drives both the visible
/// watermark text and the invisible metadata fields used to trace leaks.
#[derive(Debug)]
pub struct Recipient {
    /// Human-readable name shown in the visible watermark.
    pub name: String,
    /// Stable, unique identifier (UUID, account ID, etc.). Stored in the
    /// invisible `/Info` fields, and what investigators match leaked copies
    /// against.
    pub identifier: String,
    /// Optional email, for the watermark and the invisible fields.
    pub email: Option<String>,
}

impl Clone for Recipient {
    fn clone(&self) -> (copy: Self)
        ensures
            copy == *self,
    {
        Recipient {
            name: self.name.clone(),
            identifier: self.identifier.clone(),
            email: match &self.email {
                Some(email) => Some(email.clone()),
                None => None,
            },
        }
    }
}

/// Knobs that shape one personalisation pass.
#[derive(Debug)]
pub struct Options {
    pub visible: Option<VisibleWatermark>,
    pub invisible: InvisibleMetadata,
    /// Optional "phone-home on open" check for a newer version of the
    /// document.
    pub freshness: Option<FreshnessCheck>,
    /// When set, replaces the document's `/CreationDate` with the request
    /// time. Defaults to `false` so leak traces preserve the original render
    /// timestamp.
    pub stamp_creation_date: bool,
}

impl Clone for Options {
    fn clone(&self) -> (copy: Self)
        ensures
            copy == *self,
    {
        Options {
            visible: match &self.visible {
                Some(visible) => Some(visible.clone()),
                None => None,
            },
            invisible: self.invisible,
            freshness: match &self.freshness {
                Some(freshness) => Some(freshness.clone()),
                None => None,
            },
            stamp_creation_date: self.stamp_creation_date,
        }
    }
}

impl Default for Options {
    fn default() -> (options: Self)
        ensures
            options.visible matches Some(watermark) && watermark.is_default(),
            options.invisible == (InvisibleMetadata {
                recipient_id: false,
                recipient_email: false,
                stamped_at: false,
            }),
            options.freshness is None,
            !options.stamp_creation_date,
    {
        Options {
            visible: Some(VisibleWatermark::default()),
            invisible: InvisibleMetadata::default(),
            freshness: None,
            stamp_creation_date: false,
        }
    }
}

/// A "phone-home on open" version check, stamped as a JavaScript open action:
/// a viewer that runs PDF JavaScript fires an HTTP `GET` against the URL and
/// warns the reader if the answer says that a newer version exists.
///
/// Best-effort by design: if the server cannot be reached, or the viewer does
/// not run PDF JavaScript, the reader sees nothing. The request goes out on
/// every opening of the document, so disclose it in the document's
/// distribution policy.
#[derive(Debug)]
pub struct FreshnessCheck {
    /// URL template; `{doc_id}` and `{doc_version}` are substituted at stamp
    /// time.
    pub url_template: String,
    /// Document identifier baked into the URL.
    pub doc_id: String,
    /// Document version at the time the document was rendered.
    pub doc_version: String,
    /// Alert message shown when the check reports the document is stale.
    pub outdated_message: String,
}

impl Clone for FreshnessCheck {
    fn clone(&self) -> (copy: Self)
        ensures
            copy == *self,
    {
        FreshnessCheck {
            url_template: self.url_template.clone(),
            doc_id: self.doc_id.clone(),
            doc_version: self.doc_version.clone(),
            outdated_message: self.outdated_message.clone(),
        }
    }
}

/// `<String as From<&str>>::from` copies the text of a string slice.
pub assume_specification<'a>[ <String as From<&'a str>>::from ](text: &str) -> (copy: String)
    ensures
        copy@ == text@,
;

/// `<T as From<T>>::from` returns its argument unchanged.
pub assume_specification<T>[ <T as From<T>>::from ](value: T) -> (same: T)
    ensures
        same == value,
;

impl FreshnessCheck {
    /// A check against `url_template` with the standard alert message.
    pub fn new(
        url_template: impl Into<String>,
        doc_id: impl Into<String>,
        doc_version: impl Into<String>,
    ) -> (check: Self)
        ensures
            call_ensures(Into::into, (url_template,), check.url_template),
            call_ensures(Into::into, (doc_id,), check.doc_id),
            call_ensures(Into::into, (doc_version,), check.doc_version),
            check.outdated_message@
                == "This document is out of date. Please download the latest version from your portal."@,
    {
        FreshnessCheck {
            url_template: url_template.into(),
            doc_id: doc_id.into(),
            doc_version: doc_version.into(),
            outdated_message:
                "This document is out of date. Please download the latest version from your portal.".into(),
        }
    }
}

/// A single-precision number, held by its IEEE 754 bits.
#[derive(Debug, Clone, Copy, PartialEq, Eq, Structural)]
pub struct Single {
    pub bits: u32,
}

/// Diagonal-text overlay for every page.
#[derive(Debug)]
pub struct VisibleWatermark {
    /// Text printed across the page. Templates use `{name}`, `{email}`,
    /// `{identifier}`, `{date}`.
    pub template: String,
    pub font_size: Single,
    pub opacity: Single,
    pub rotation_deg: Single,
    /// `(r, g, b)`, 0 to 255 each.
    pub color: (u8, u8, u8),
}

impl VisibleWatermark {
    /// Whether this is the standard overlay: a light grey text of 36 points
    /// at an opacity of 0.18, turned by -30 degrees.
    pub open spec fn is_default(self) -> bool {
        &&& self.template@ == "Confidential — {name}"@
        &&& self.font_size.bits == 0x4210_0000
        &&& self.opacity.bits == 0x3e38_51ec
        &&& self.rotation_deg.bits == 0xc1f0_0000
        &&& self.color == (180u8, 180u8, 180u8)
    }
}

impl Clone for VisibleWatermark {
    fn clone(&self) -> (copy: Self)
        ensures
            copy == *self,
    {
        VisibleWatermark {
            template: self.template.clone(),
            font_size: self.font_size,
            opacity: self.opacity,
            rotation_deg: self.rotation_deg,
            color: self.color,
        }
    }
}

impl Default for VisibleWatermark {
    fn default() -> (watermark: Self)
        ensures
            watermark.is_default(),
    {
        VisibleWatermark {
            template: "Confidential — {name}".to_string(),
            font_size: Single { bits: 0x4210_0000 },
            opacity: Single { bits: 0x3e38_51ec },
            rotation_deg: Single { bits: 0xc1f0_0000 },
            color: (180, 180, 180),
        }
    }
}

/// Invisible metadata written to the document's `/Info` dictionary. Each
/// field that is set ends up as a separate entry under the key prefix
/// `Stamp.`, so the fields are easy to search for in a leaked copy.
#[derive(Debug, Clone, Copy)]
pub struct InvisibleMetadata {
    pub recipient_id: bool,
    pub recipient_email: bool,
    pub stamped_at: bool,
}

impl Default for InvisibleMetadata {
    fn default() -> (flags: Self)
        ensures
            flags == (InvisibleMetadata {
                recipient_id: false,
                recipient_email: false,
                stamped_at: false,
            }),
    {
        InvisibleMetadata { recipient_id: false, recipient_email: false, stamped_at: false }
    }
}

/// Why a document could not be personalised.
#[derive(Debug)]
pub enum Error {
    /// The input is not a PDF that can be read.
    InvalidInput(lopdf::Error),
    /// The personalised copy could not be written.
    Output(std::io::Error),
    /// The document lacks a part that the stamp goes into, or has no object
    /// numbers left for it.
    Structure(&'static str),
}

impl From<lopdf::Error> for Error {
    fn from(error: lopdf::Error) -> (converted: Self) {
        Error::InvalidInput(error)
    }
}

impl vstd::std_specs::convert::FromSpecImpl<lopdf::Error> for Error {
    open spec fn obeys_from_spec() -> bool {
        true
    }

    open spec fn from_spec(error: lopdf::Error) -> Self {
        Error::InvalidInput(error)
    }
}

impl From<std::io::Error> for Error {
    fn from(error: std::io::Error) -> (converted: Self) {
        Error::Output(error)
    }
}

impl vstd::std_specs::convert::FromSpecImpl<std::io::Error> for Error {
    open spec fn obeys_from_spec() -> bool {
        true
    }

    open spec fn from_spec(error: std::io::Error) -> Self {
        Error::Output(error)
    }
}

} // verus!
