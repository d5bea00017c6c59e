//! Per-recipient personalisation of cached PDF documents.
//!
//! A canonical PDF is rendered once and cached. When a specific person
//! requests a copy, this crate takes the cached bytes and stamps onto them
//!
//! - invisible metadata: `/Info` entries with the recipient's identifier,
//!   email and the time, so leaks can be traced back to the recipient; and
//! - if asked for, a freshness check: a script that asks on opening whether a
//!   newer version of the document exists.
//!
//! A visible watermark is part of the options and not drawn yet.
//!
//! The entry point is [`stamp::personalise`]: it takes the bytes of a PDF, a
//! [`settings::Recipient`] and [`settings::Options`], and returns the bytes of
//! the personalised copy. Nothing is rendered again: the document is changed
//! in place with `lopdf`.

pub mod clock;
pub mod document;
pub mod freshness;
pub mod laws;
pub mod metadata;
pub mod model;
pub mod request;
pub mod settings;
pub mod stamp;
pub mod text;

pub use settings::{
    Error, FreshnessCheck, InvisibleMetadata, Options, Recipient, Single, VisibleWatermark,
};
pub use stamp::personalise;
