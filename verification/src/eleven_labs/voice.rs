use vstd::prelude::*;
use crate::voice::{VoiceError, VoiceGenerate, VoiceList};

verus! {

/// A request to speak a text, settled.
#[derive(Clone, Debug, PartialEq, Eq)]
pub struct ElevenLabsGenerateCommand {
    pub options: VoiceGenerate,
}

/// A request to list the voices, settled.
#[derive(Clone, Copy, Debug, PartialEq, Eq)]
pub struct ElevenLabsListCommand {
    pub options: VoiceList,
}

/// What the provider objects to in a request.
#[derive(Clone, Debug, PartialEq, Eq)]
pub struct ElevenLabsValidationError {
    pub detail: Vec<ElevenLabsValidationErrorDetail>,
}

#[derive(Clone, Debug, PartialEq, Eq)]
pub struct ElevenLabsValidationErrorDetail {
    /// Where in the request the fault lies, each step as text.
    pub loc: Vec<String>,
    pub msg: String,
    /// The kind of fault; the field `type` of the response.
    pub kind: String,
}

#[derive(Clone, Debug, PartialEq, Eq)]
pub enum ElevenLabsVoiceError {
    ValidationError(ElevenLabsValidationError),
    /// The provider answered with a status that is not provided for.
    UnexpectedStatusCode(u16),
}

#[derive(Clone, Debug, PartialEq, Eq)]
pub struct ElevenLabsSampleResponseModel {
    pub sample_id: String,
    pub file_name: String,
    pub mime_type: String,
    pub size_bytes: i32,
    pub hash: String,
}

#[derive(Clone, Debug, PartialEq, Eq)]
pub struct ElevenLabsRecordingResponseModel {
    pub recording_id: String,
    pub mime_type: String,
    pub size_bytes: i32,
    pub upload_date_unix: i32,
    pub transcription: String,
}

/// A voice as far as a request needs it: its identifier and its name.
#[derive(Clone, Debug, PartialEq, Eq)]
pub struct VoiceEntry {
    pub voice_id: String,
    pub name: String,
}

/// What the status of a response means.
#[derive(Clone, Copy, Debug, PartialEq, Eq, Structural)]
pub enum StatusMeaning {
    /// 200: the body holds what was asked for.
    Success,
    /// 401: the key was refused.
    Unauthorized,
    /// 422: the body says what is wrong with the request.
    Invalid,
    /// Any other status.
    Unexpected,
}

/// What the status `code` of a response means.
pub fn status_meaning(code: u16) -> (r: StatusMeaning)
    ensures
        r == if code == 200 {
            StatusMeaning::Success
        } else if code == 401 {
            StatusMeaning::Unauthorized
        } else if code == 422 {
            StatusMeaning::Invalid
        } else {
            StatusMeaning::Unexpected
        },
{
    if code == 200 {
        StatusMeaning::Success
    } else if code == 401 {
        StatusMeaning::Unauthorized
    } else if code == 422 {
        StatusMeaning::Invalid
    } else {
        StatusMeaning::Unexpected
    }
}

/// The index of the first voice at or after `i` whose identifier or name is
/// `wanted`.
pub open spec fn voice_index(voices: Seq<VoiceEntry>, wanted: Seq<char>, i: int) -> Option<int>
    decreases voices.len() - i,
{
    if !(0 <= i < voices.len()) {
        None
    } else if voices[i].voice_id@ == wanted || voices[i].name@ == wanted {
        Some(i)
    } else {
        voice_index(voices, wanted, i + 1)
    }
}

/// The names of the first `n` voices, with a comma and a space between one
/// and the next.
pub open spec fn listed(voices: Seq<VoiceEntry>, n: int) -> Seq<char>
    decreases n,
{
    if n <= 0 || n > voices.len() {
        Seq::empty()
    } else if n == 1 {
        voices[0].name@
    } else {
        listed(voices, n - 1) + seq![',', ' '] + voices[n - 1].name@
    }
}

impl ElevenLabsListCommand {
    /// A request that lists the voices without showing them.
    pub fn quiet() -> (r: ElevenLabsListCommand)
        ensures
            r.options.quiet,
            !r.options.verbose,
    {
        ElevenLabsListCommand { options: VoiceList { verbose: false, quiet: true } }
    }

    /// Settles a request to list the voices: it cannot be both verbose and
    /// quiet.
    pub fn try_from(options: VoiceList) -> (r: Result<ElevenLabsListCommand, VoiceError>)
        ensures
            match r {
                Ok(c) => !(options.verbose && options.quiet) && c.options == options,
                Err(e) => options.verbose && options.quiet && (e matches VoiceError::InvalidArguments(
                    m,
                ) && m@ == "Cannot be both verbose and quiet"@),
            },
    {
        if options.verbose && options.quiet {
            return Err(VoiceError::InvalidArguments("Cannot be both verbose and quiet".to_owned()));
        }
        Ok(ElevenLabsListCommand { options })
    }

    /// The names of the voices as they are shown: in a row, with commas.
    pub fn names(voices: &Vec<VoiceEntry>) -> (r: String)
        ensures
            r@ == listed(voices@, voices@.len() as int),
    {
        let mut out = String::new();
        let mut n: usize = 0;
        while n < voices.len()
            invariant
                n <= voices.len(),
                out@ == listed(voices@, n as int),
            decreases voices.len() - n,
        {
            if n > 0 {
                out.append(", ");
                proof {
                    reveal_strlit(", ");
                    assert(", "@ =~= seq![',', ' ']);
                }
            } else {
                assert(out@ + voices@[0].name@ =~= voices@[0].name@);
            }
            out.append(voices[n].name.as_str());
            n += 1;
        }
        out
    }
}

/// The outcome of looking a voice up.
#[derive(Clone, Debug, PartialEq, Eq)]
pub enum VoiceLookup {
    /// The voice has this identifier.
    Found(String),
    /// The list of voices is to be fetched again.
    Refresh,
    /// There is no such voice.
    Unknown(VoiceError),
}

/// The text of the error for a voice that is not known.
pub open spec fn unknown_voice(voice: Seq<char>) -> Seq<char> {
    "Could not find voice id for "@ + voice + ", try listing the available voices with list"@
}

/// The settings of a voice that a request overrides.
pub open spec fn settings_of(stability: Option<usize>, similarity_boost: Option<usize>) -> Option<
    Option<(usize, usize)>,
> {
    match (stability, similarity_boost) {
        (Some(s), Some(b)) => Some(Some((s, b))),
        (None, None) => Some(None),
        _ => None,
    }
}

impl ElevenLabsGenerateCommand {
    pub fn try_from(options: VoiceGenerate) -> (r: Result<
        ElevenLabsGenerateCommand,
        ElevenLabsVoiceError,
    >)
        ensures
            r matches Ok(c) && c.options == options,
    {
        Ok(ElevenLabsGenerateCommand { options })
    }

    /// The identifier of the voice that the request names, by identifier or
    /// by name: that of the first such voice in `voices`.
    pub fn voice_id(&self, voices: &Vec<VoiceEntry>) -> (r: Option<String>)
        ensures
            match r {
                Some(id) => voice_index(voices@, self.options.voice@, 0) is Some && id
                    == voices@[voice_index(voices@, self.options.voice@, 0)->0].voice_id,
                None => voice_index(voices@, self.options.voice@, 0) is None,
            },
    {
        let mut i: usize = 0;
        while i < voices.len()
            invariant
                i <= voices.len(),
                voice_index(voices@, self.options.voice@, 0) == voice_index(
                    voices@,
                    self.options.voice@,
                    i as int,
                ),
            decreases voices.len() - i,
        {
            if voices[i].voice_id == self.options.voice || voices[i].name == self.options.voice {
                return Some(voices[i].voice_id.clone());
            }
            i += 1;
        }
        None
    }

    /// Looks the voice of the request up in `voices`. A voice that a cached
    /// list does not hold may be new: the list is to be fetched again before
    /// the voice counts as unknown.
    pub fn find_voice(&self, voices: &Vec<VoiceEntry>, from_cache: bool) -> (r: VoiceLookup)
        ensures
            match voice_index(voices@, self.options.voice@, 0) {
                Some(i) => r matches VoiceLookup::Found(id) && id == voices@[i].voice_id,
                None => if from_cache {
                    r == VoiceLookup::Refresh
                } else {
                    r matches VoiceLookup::Unknown(e) && (e matches VoiceError::InvalidArguments(m)
                        && m@ == unknown_voice(self.options.voice@))
                },
            },
    {
        match self.voice_id(voices) {
            Some(id) => VoiceLookup::Found(id),
            None => if from_cache {
                VoiceLookup::Refresh
            } else {
                let mut text = "Could not find voice id for ".to_owned();
                text.append(self.options.voice.as_str());
                text.append(", try listing the available voices with list");
                VoiceLookup::Unknown(VoiceError::InvalidArguments(text))
            },
        }
    }

    /// The settings that the request overrides: both or neither. One
    /// without the other is refused.
    pub fn voice_settings(&self) -> (r: Result<Option<(usize, usize)>, VoiceError>)
        ensures
            match r {
                Ok(s) => settings_of(
                    self.options.voice_stability,
                    self.options.voice_similarity_boost,
                ) == Some(s),
                Err(e) => settings_of(
                    self.options.voice_stability,
                    self.options.voice_similarity_boost,
                ) is None && e is InvalidArguments,
            },
    {
        match (self.options.voice_stability, self.options.voice_similarity_boost) {
            (Some(s), Some(b)) => Ok(Some((s, b))),
            (None, None) => Ok(None),
            _ => Err(
                VoiceError::InvalidArguments(
                    "If you specify an override for stability or similarity_boost in Eleven Labs then you need to specify them both. You don't need to specify either though because they're saved in your account as defaults on the voice.".to_owned(),
                ),
            ),
        }
    }
}

} // verus!
