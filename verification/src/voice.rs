//! Turning text into speech.

use vstd::prelude::*;
use crate::eleven_labs::voice::ElevenLabsVoiceError;

verus! {

/// A request about voices.
#[derive(Clone, Debug, PartialEq, Eq)]
pub struct VoiceCommand {
    pub command: Voice,
}

#[derive(Clone, Debug, PartialEq, Eq)]
pub enum Voice {
    /// List the voices there are.
    List(VoiceList),
    /// Speak a text.
    Generate(VoiceGenerate),
}

#[derive(Clone, Copy, Debug, PartialEq, Eq)]
pub struct VoiceList {
    pub verbose: bool,
    pub quiet: bool,
}

impl Default for VoiceList {
    fn default() -> (r: VoiceList)
        ensures
            !r.verbose,
            !r.quiet,
    {
        VoiceList { verbose: false, quiet: false }
    }
}

#[derive(Clone, Debug, PartialEq, Eq)]
pub struct VoiceGenerate {
    /// The text to speak.
    pub text: String,
    /// The file that the speech is written to.
    pub out: String,
    /// The voice, by its name or its identifier.
    pub voice: String,
    pub voice_stability: Option<usize>,
    pub voice_similarity_boost: Option<usize>,
}

/// Why a request about voices failed.
#[derive(Clone, Debug, PartialEq, Eq)]
pub enum VoiceError {
    InvalidArguments(String),
    ElevenLabsVoiceError(ElevenLabsVoiceError),
    NetworkError(String),
    IOError(String),
    Serde(String),
    Unauthorized,
}

pub type VoiceResult = Result<(), VoiceError>;

} // verus!
