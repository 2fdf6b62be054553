//! Reads Atom and RSS documents into one feed model.
//!
//! The tokenizer of the `xml` crate turns the input into a stream of events.
//! Everything after that is verified: the walk over the elements, the choice
//! of the dialect, and the mapping of each dialect onto the model.
pub mod model;
pub mod parser;
pub mod util;
