//! What is particular to the Eleven Labs provider.

pub mod voice;
