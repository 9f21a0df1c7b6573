//! Fuzzy matching of a short pattern against a candidate text.
//!
//! A pattern matches a source when its characters occur in the source in
//! order, ignoring ASCII case. The scoring itself is done by the
//! `fuzzy-matcher` crate; this library decides when there is a match at all,
//! guards what the matcher proposes, and states what callers can rely on.

pub mod alignment;
pub mod matcher;
pub mod query;
pub mod text;
