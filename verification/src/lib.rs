//! Prompt programs: small scripts that choreograph exchanges with a chat
//! model, set off shell commands on what the model answers, and fan out
//! into other prompts.
//!
//! The parser reads a program into its syntax tree ([`ast`], [`parser`]).
//! The evaluator decides, step by step, what an invocation of a prompt does
//! next ([`eval`]). The tail follows the session file of a prompt while it
//! grows ([`watch`]). Around them stand the chat and completion services
//! that the evaluator talks to.

pub mod ast;
pub mod chat;
pub mod cohere;
pub mod completion;
pub mod config;
pub mod eleven_labs;
pub mod eval;
pub mod image;
pub mod openai;
pub mod parser;
pub mod pattern;
pub mod session;
pub mod text;
pub mod voice;
pub mod watch;
pub mod yaml;

pub use chat::{ChatCommand, ChatError, ChatMessage, ChatResult, ChatRole};
pub use completion::CompletionOptions;
pub use config::{Config, JSONConfig, DEFAULT_CONFIG_FILE};
pub use image::{
    ImageBinary, ImageCommand, ImageData, ImageError, ImageResult, ImageUrl, PictureFormat,
    PictureSize,
};
pub use session::{SessionCommand, SessionError, SessionResult, SessionResultExt};
pub use voice::{Voice, VoiceError, VoiceResult};
