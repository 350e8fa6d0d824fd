//! Localization keys for enums, worked out from the annotations on their
//! variants.
//!
//! An enum whose variants each carry `#[tag("some.key")]` gets a key table:
//! one arm for each variant, in declaration order, holding the literal of its
//! tag. [`localized_derive`] makes that table from a [`Declaration`], or
//! returns every [`Diagnostic`] of the declaration at once: that it is no
//! enum, or which variants have no tag and which tags do not hold a single
//! string literal. It never returns part of a table.
//!
//! - [`declaration`]: the input, and where the tag of a variant is;
//! - [`reading`]: the key that an annotation holds, as `syn` reads it;
//! - [`generator`]: the verdict on each variant and the outcome for the
//!   declaration, for whatever the tags read as;
//! - [`implementation`]: the key table and its dispatch;
//! - [`diagnostic`]: what is reported, and where;
//! - [`laws`]: what holds of generation on every declaration, for every way
//!   its tags can read;
//! - [`localized`]: the interface that an enum with a key table implements.

pub mod declaration;
pub mod diagnostic;
pub mod generator;
pub mod implementation;
pub mod laws;
pub mod localized;
pub mod reading;

pub use declaration::{Annotation, Body, Declaration, Payload, Variant};
pub use diagnostic::Diagnostic;
pub use generator::{collect, localized_derive, settle};
pub use implementation::{Arm, Implementation};
pub use localized::Localized;
