//! Deconjugation of Japanese verbs and adjectives.
//!
//! A conjugated word is taken apart into every root it could have come from,
//! each with the chain of conjugation steps that leads from the root back to
//! the word, and a root with its steps is put together again into the ending
//! that conjugates it. Nothing here knows which roots are real words: the
//! candidates are meant to be looked up in a dictionary.
//!
//! [`deconjugate`] takes a word apart. What it finds is laid down in
//! [`grammar`], as functions on sequences of characters.
//! [`Root::conjugation_suffix`] goes the other way, by the rules in
//! [`conjugate`]. [`laws`] holds what is proved of the two together.

pub mod conjugate;
pub mod deconjugate;
pub mod grammar;
pub mod label;
pub mod laws;
pub mod root;

pub use conjugate::RenderError;
pub use deconjugate::deconjugate;
pub use root::{Root, RootKind, RootView, Step};
