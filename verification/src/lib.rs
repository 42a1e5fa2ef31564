//! A URL shortening registry.
//!
//! A destination URL is stored under a freshly drawn short identifier; the
//! identifier resolves back to the stored record, and every resolution counts
//! as one visit.
//!
//! * [`record`] holds the stored record and its mathematical value.
//! * [`messages`] holds the texts with which the operations fail.
//! * [`validation`] decides whether a text is accepted as a destination.
//! * [`ident`] draws short identifiers.
//! * [`model`] describes lookup and resolution over a sequence of entries.
//! * [`table`] is the registry itself, owned by a single caller, with exact
//!   contracts stated over that sequence.
//! * [`laws`] proves what holds across several operations on a table.
//! * [`sync`] is the lock that guards a table shared between threads.
//! * [`shortener`] is the shared handle that serialises access to one table.

pub mod ident;
pub mod laws;
pub mod messages;
pub mod model;
pub mod record;
pub mod shortener;
pub mod sync;
pub mod table;
pub mod validation;
