//! A chat with OpenAI's models.

use vstd::prelude::*;
use crate::chat::{
    ChatError, ChatMessage, ChatOptions, ChatProvider, ChatRole,
};
use crate::completion::ClashingArgumentsError;
use crate::text::{
    chars_of, has_at, lowercase, slice_of, starts_with, to_lowercase, to_string, trim, trim_start,
    trimmed, trimmed_start,
};

verus! {

pub const MAX_GPT3_TURBO_TOKENS: usize = 4096;

pub const MAX_GPT4_BASE_TOKENS: usize = 8192;

pub const MAX_GPT4_EXTENDED_TOKENS: usize = 32768;

/// The most stops that a request may name.
pub const MAX_STOPS: usize = 4;

/// The most tokens that a model takes.
pub open spec fn max_tokens(provider: ChatProvider) -> usize {
    match provider {
        ChatProvider::OpenAiGPT3Turbo | ChatProvider::OpenAiGPT3Turbo_0301 => 4096,
        ChatProvider::OpenAiGPT4 | ChatProvider::OpenAiGPT4_0314 => 8192,
        ChatProvider::OpenAiGPT4_32K | ChatProvider::OpenAiGPT4_32K_0314 => 32768,
    }
}

/// The most tokens that a model takes.
pub fn get_max_tokens_for_model(provider: ChatProvider) -> (r: usize)
    ensures
        r == max_tokens(provider),
{
    match provider {
        ChatProvider::OpenAiGPT3Turbo | ChatProvider::OpenAiGPT3Turbo_0301 => MAX_GPT3_TURBO_TOKENS,
        ChatProvider::OpenAiGPT4 | ChatProvider::OpenAiGPT4_0314 => MAX_GPT4_BASE_TOKENS,
        ChatProvider::OpenAiGPT4_32K | ChatProvider::OpenAiGPT4_32K_0314 => MAX_GPT4_EXTENDED_TOKENS,
    }
}

/// The tokens that a request may ask for: one less than are still
/// available after its messages, and no more than `limit`. `None` where
/// nothing is available.
pub fn get_max_allowed_tokens(limit: usize, available: Option<usize>) -> (r: Option<usize>)
    ensures
        r == match available {
            Some(n) if n > 0 => Some(
                if limit < n - 1 {
                    limit
                } else {
                    (n - 1) as usize
                },
            ),
            _ => None,
        },
{
    match available {
        Some(n) => if n > 0 {
            if limit < n - 1 {
                Some(limit)
            } else {
                Some(n - 1)
            }
        } else {
            None
        },
        None => None,
    }
}

/// A chat with OpenAI, settled.
#[derive(Clone, Debug)]
pub struct OpenAIChatCommand {
    pub options: ChatOptions,
}

/// The text of the error for a request that names too many stops.
pub open spec fn too_many_stops(provider: ChatProvider) -> Seq<char> {
    "Cannot surpass more then 4 stops for \""@ + provider.model_name() + "\""@
}

impl OpenAIChatCommand {
    /// Settles a chat for OpenAI: the most tokens are those that the model
    /// takes, and no more than four stops may be named.
    pub fn try_from(options: ChatOptions) -> (r: Result<OpenAIChatCommand, ChatError>)
        ensures
            match r {
                Ok(c) => {
                    &&& options.stop@.len() <= 4
                    &&& c.options.tokens_max == Some(max_tokens(options.provider))
                    &&& c.options.provider == options.provider
                    &&& c.options.completion == options.completion
                    &&& c.options.file == options.file
                    &&& c.options.system == options.system
                    &&& c.options.direction == options.direction
                    &&& c.options.prefix_ai == options.prefix_ai
                    &&& c.options.prefix_user == options.prefix_user
                    &&& c.options.stream == options.stream
                    &&& c.options.no_context == options.no_context
                    &&& c.options.ai_responds_first == options.ai_responds_first
                    &&& c.options.stop == options.stop
                },
                Err(e) => options.stop@.len() > 4 && (e matches ChatError::ClashingArguments(c)
                    && c.error@ == too_many_stops(options.provider)),
            },
    {
        let mut options = options;
        let provider = options.provider;
        options.tokens_max = Some(get_max_tokens_for_model(provider));
        if options.stop.len() > MAX_STOPS {
            let mut text = "Cannot surpass more then 4 stops for \"".to_owned();
            text.append(provider.to_string().as_str());
            text.append("\"");
            return Err(ChatError::ClashingArguments(ClashingArgumentsError::new(text)));
        }
        Ok(OpenAIChatCommand { options })
    }

    /// Whether the chat returns after the model has answered: where the
    /// user's line was given with the options, or one exchange was asked for.
    pub fn returns_after_reply(&self) -> (r: bool)
        ensures
            r == (self.options.completion.append is Some || self.options.completion.once == Some(
                true,
            )),
    {
        let once = match self.options.completion.once {
            Some(b) => b,
            None => false,
        };
        self.options.completion.append.is_some() || once
    }
}

/// One choice of a chat response.
#[derive(Clone, Debug, PartialEq, Eq)]
pub struct OpenAIChatChoice {
    pub index: Option<usize>,
    pub message: Option<ChatMessage>,
    pub finish_reason: Option<OpenAIFinishReason>,
}

#[derive(Clone, Copy, Debug, PartialEq, Eq, Structural)]
pub enum OpenAIFinishReason {
    Stop,
    Length,
    ContentFilter,
}

/// One choice of a streamed chat response.
#[derive(Clone, Debug, PartialEq, Eq)]
pub struct OpenAIChatDelta {
    pub index: Option<usize>,
    pub delta: ChatMessageDelta,
    pub finish_reason: Option<String>,
}

/// The part of a message that one event of a stream brings.
#[derive(Clone, Debug, PartialEq, Eq)]
pub struct ChatMessageDelta {
    pub role: Option<ChatRole>,
    pub content: Option<String>,
}

/// How far the answer of a stream has been written.
#[derive(Clone, Copy, Debug, PartialEq, Eq, Structural)]
pub enum StreamMessageState {
    New,
    HasWrittenRole,
    HasWrittenContent,
}

/// An answer behind the model's label, unless the answer in lowercase,
/// `lowered`, starts with the label already.
pub open spec fn labelled_with(prefix_ai: Seq<char>, message: Seq<char>, lowered: Seq<char>) -> Seq<
    char,
> {
    if starts_with(lowered, prefix_ai) {
        message
    } else {
        prefix_ai + seq![':', ' '] + message
    }
}

/// The answer of the model as it is written to the transcript: trimmed,
/// and behind the model's label unless it starts with it already.
pub open spec fn labelled_reply(prefix_ai: Seq<char>, content: Seq<char>) -> Seq<char> {
    labelled_with(prefix_ai, trim(content), lowercase(trim(content)))
}

/// Puts `message` behind the model's label unless `lowered`, the message in
/// lowercase, starts with the label.
pub fn label_message(prefix_ai: &str, message: &str, lowered: &str) -> (r: String)
    ensures
        r@ == labelled_with(prefix_ai@, message@, lowered@),
{
    if has_at(&chars_of(lowered), &chars_of(prefix_ai), 0) {
        message.to_owned()
    } else {
        let mut out = prefix_ai.to_owned();
        out.append(": ");
        out.append(message);
        proof {
            reveal_strlit(": ");
            assert(": "@ =~= seq![':', ' ']);
        }
        out
    }
}

/// The answer of the model as it is written to the transcript.
pub fn label_reply(prefix_ai: &str, content: &str) -> (r: String)
    ensures
        r@ == labelled_reply(prefix_ai@, content@),
{
    let message = to_string(&trimmed(&chars_of(content)));
    let lowered = to_lowercase(message.as_str());
    label_message(prefix_ai, message.as_str(), lowered.as_str())
}

/// The first content of a streamed answer as it is written: without the
/// whitespace at its start, and without the model's label and the colon
/// after it if it starts with them.
pub open spec fn first_content(prefix_ai: Seq<char>, content: Seq<char>) -> Seq<char> {
    let text = trim_start(content);
    let label = prefix_ai + seq![':'];
    if starts_with(text, label) {
        trim_start(text.subrange(label.len() as int, text.len() as int))
    } else {
        text
    }
}

/// What one event of a stream adds to the answer: the label of the role if
/// the event brings one, and the content if it brings any; the first
/// content of an answer is cleaned of whitespace and label.
pub open spec fn stream_text(
    prefix_ai: Seq<char>,
    role: Option<ChatRole>,
    content: Option<Seq<char>>,
    state: StreamMessageState,
) -> Seq<char> {
    (match role {
        Some(r) => r.label(),
        None => Seq::empty(),
    }) + match content {
        Some(c) => if state == StreamMessageState::HasWrittenContent && role is None {
            c
        } else {
            first_content(prefix_ai, c)
        },
        None => Seq::empty(),
    }
}

/// The state of a stream after one event.
pub open spec fn stream_state(
    role: Option<ChatRole>,
    content: Option<Seq<char>>,
    state: StreamMessageState,
) -> StreamMessageState {
    if content is Some {
        StreamMessageState::HasWrittenContent
    } else if role is Some {
        StreamMessageState::HasWrittenRole
    } else {
        state
    }
}

/// Takes in one event of a streamed answer: what it adds is written to
/// the transcript and returned, to be shown.
pub fn handle_stream_message(
    options: &mut ChatOptions,
    delta: &ChatMessageDelta,
    state: StreamMessageState,
) -> (r: (StreamMessageState, String))
    ensures
        r.0 == stream_state(delta.role, delta.content.deep_view(), state),
        r.1@ == stream_text(old(options).prefix_ai@, delta.role, delta.content.deep_view(), state),
        final(options).file.transcript@ == old(options).file.transcript@ + r.1@,
        final(options).file.overrides == old(options).file.overrides,
        final(options).ai_responds_first == old(options).ai_responds_first,
        final(options).completion == old(options).completion,
        final(options).direction == old(options).direction,
        final(options).system == old(options).system,
        final(options).no_context == old(options).no_context,
        final(options).provider == old(options).provider,
        final(options).prefix_ai == old(options).prefix_ai,
        final(options).prefix_user == old(options).prefix_user,
        final(options).stream == old(options).stream,
        final(options).tokens_max == old(options).tokens_max,
        final(options).stop == old(options).stop,
{
    let ghost old_state = state;
    let mut state = state;
    let mut text = String::new();
    if let Some(role) = delta.role {
        text.append(role.to_string().as_str());
        state = StreamMessageState::HasWrittenRole;
    }
    if let Some(content) = &delta.content {
        match state {
            StreamMessageState::HasWrittenContent => {
                text.append(content.as_str());
            },
            _ => {
                let filtered = trimmed_start(&chars_of(content.as_str()));
                let mut label = chars_of(options.prefix_ai.as_str());
                label.push(':');
                assert(label@ =~= options.prefix_ai@ + seq![':']);
                let cleaned = if has_at(&filtered, &label, 0) {
                    trimmed_start(&slice_of(&filtered, label.len(), filtered.len()))
                } else {
                    filtered
                };
                text.append(to_string(&cleaned).as_str());
            },
        }
        state = StreamMessageState::HasWrittenContent;
    }
    assert(text@ =~= stream_text(
        options.prefix_ai@,
        delta.role,
        delta.content.deep_view(),
        old_state,
    ));
    let written = options.file.write_words(text);
    (state, written)
}

} // verus!
