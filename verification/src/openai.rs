//! What is particular to the OpenAI provider.

pub mod chat;
pub mod error;
pub mod response;
pub mod session;
