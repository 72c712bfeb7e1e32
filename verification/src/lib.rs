//! Verified core of a native-library driver that hands relational query
//! results to a foreign caller: a statement classifier, a self-describing
//! binary encoding for result sets with its decoder, and the envelope type
//! that carries success, affected-row counts, payload bytes or an error
//! message across the boundary.

pub mod classify;
pub mod classify_props;
pub mod model;
pub mod encode;
pub mod decode;
pub mod roundtrip;
pub mod envelope;
pub mod boundary;
