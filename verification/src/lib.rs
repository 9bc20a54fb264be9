//! A decoder for the Hessian binary serialization format, with a few small
//! helpers beside it.
//!
//! The wire format is written down once, as specification functions on a
//! byte sequence and a position (`grammar`). The executable decoder
//! (`hessian`, reading through `cursor`) is proved to return exactly what
//! those functions describe, and `laws` holds what follows for every input.
//! `value` has the decoded values, `person` fills a record from them.
//!
//! Doubles are kept exact, as `value::DoubleValue`; turning one into a
//! floating-point number is left to the caller.

pub mod clourse;
pub mod cursor;
pub mod element_name;
pub mod error;
pub mod grammar;
pub mod groups;
pub mod hessian;
pub mod java_stream;
pub mod laws;
pub mod live;
pub mod micro;
pub mod named;
pub mod obj_ref;
pub mod person;
pub mod pointer;
pub mod public;
pub mod value;
pub mod zen;
