//! In-memory field storage for a FIX-style message engine.
//!
//! A decoded message is a sequence of `(tag, value)` pairs in wire order,
//! where the same numeric tag may occur several times and the order of its
//! occurrences is significant.  `messages` holds the two-phase store: a
//! mutable builder that accumulates values, and the frozen, read-only
//! message it turns into, which serves typed and untyped lookups.
//! `fields` holds the value representation and the field descriptors that
//! recover static typing over the numeric tags; `session` holds the plain
//! value object identifying a communication session.

pub mod fields;
pub mod messages;
pub mod session;
