//! Error stacks for nom parsers: keep the failures of attempted sub-parses,
//! mark the ones that matter, and fold them into one diagnosis when a
//! sequence fails.

pub mod error;
pub mod laws;
pub mod nom_specs;
pub mod sequence;
