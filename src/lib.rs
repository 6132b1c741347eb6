//! Retrieval of paginated record collections: page planning, merging of
//! per-page outcomes, ordering by record id, and decoding of page envelopes.

pub mod record;
pub mod aggregate;
pub mod endpoint;
pub mod envelope;
pub mod laws;
