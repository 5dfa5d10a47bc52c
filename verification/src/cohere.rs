//! What is particular to the Cohere provider.

pub mod session;
