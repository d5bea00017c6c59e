//! What the library guarantees for every input, proved from the functions
//! that the contracts are stated over.

pub mod bytes;
pub mod copies;
pub mod dictionary;
pub mod effect;
pub mod metadata;
pub mod outcome;
pub mod pass;
pub mod script;
pub mod text;
pub mod values;
pub mod wording;
