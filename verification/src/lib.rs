//! Generic utilities for finding the largest element of a sequence, together
//! with a small summarization capability: a trait with a required author
//! operation and a default summary derived from it.

pub mod largest;
pub mod pair;
pub mod point;
pub mod summary;
