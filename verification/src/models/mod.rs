//! Documentation entries and entry types.

pub mod entry;
pub mod type_model;

pub use entry::{Entry, EntryJson, Invalid as EntryInvalid};
pub use type_model::{Type, TypeJson};
