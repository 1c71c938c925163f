//! Representation, composition and configuration of tokenizer components.
//!
//! Two families of components are covered. Pre-tokenizers are held either
//! alone or as a flat, ordered sequence, and are written to and read from
//! their canonical documents. Trainers are built from an open-ended set of
//! named options into one validated, immutable configuration.
pub mod error;
pub mod laws;
pub mod pre_tokenizers;
pub mod text;
pub mod trainers;

pub use error::{ConfigurationError, ErrorView, ExpectedType};
