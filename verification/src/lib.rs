//! Content classification and the object/tag data model of a personal file catalog.
//!
//! Raw bytes are classified by [`magic_identify::magic_identify`], turned into an
//! [`object::Object`] by one of the builders in [`object::builders`], and kept in a
//! [`catalog::Collection`], which holds at most one object per payload.

pub mod catalog;
pub mod magic_identify;
pub mod object;
pub mod text;
