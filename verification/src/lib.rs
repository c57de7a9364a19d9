//! Core engine of a URL shortener.
//!
//! The crate maps short identifiers to destination URLs:
//!
//! * [`codec`] turns a sequence number into a short identifier over a
//!   configured alphabet, avoiding a blocklist of forbidden outputs;
//! * [`allocator`] decides, for a creation request, whether an existing
//!   link is reused, a new one is created, or the request is rejected;
//! * [`resolver`] resolves an identifier, optionally in preview mode,
//!   back to its destination;
//! * [`store`] is the reference store the engine is driven against:
//!   links, the append-only visit log, and the sequence counter;
//! * [`track`] aggregates the recorded visits by IP, referrer and user
//!   agent;
//! * [`model`] holds the mathematical model the contracts are stated
//!   over.
//!
//! Storage and HTTP handling are left to the embedding program: it
//! performs its own lookups and inserts and lets the decision functions
//! here judge their results.

pub mod allocator;
pub mod codec;
pub mod model;
pub mod resolver;
pub mod store;
pub mod track;
