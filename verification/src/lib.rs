//! Generator for typed bindings over a native image-processing library's
//! introspected operation catalog: a line-oriented catalog parser, a closed
//! type model for parameter kinds, a deterministic source-text emitter, and
//! the decision logic of the thin runtime layer around the generated code.

pub mod dedup;
pub mod emit;
pub mod laws;
pub mod model;
pub mod names;
pub mod parse;
pub mod runtime;
pub mod text;
pub mod typemodel;
