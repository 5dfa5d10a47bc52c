//! A chat with a model: the request, the roles, and the messages that go
//! back and forth.

use vstd::prelude::*;
use crate::completion::{
    ClashingArgumentsError, CompletionFile, CompletionOptions, CompletionOptionsView,
};
use crate::openai::error::OpenAIError;
use crate::text::{
    chars_of, decimal, decimal_of, find_char, has_at, lines, lowercase, position_of, same_chars,
    slice_of, split_lines, starts_with, to_lowercase, to_string, trim, trim_start, trimmed,
    trimmed_start,
};

verus! {

/// A request for one chat: the shared options, the system text that
/// describes the model's part, and a direction given with every exchange.
#[derive(Clone, Debug, PartialEq, Eq)]
pub struct ChatCommand {
    pub completion: CompletionOptions,
    pub system: Option<String>,
    pub direction: Option<String>,
    pub provider: Option<ChatProvider>,
}

pub struct ChatCommandView {
    pub completion: CompletionOptionsView,
    pub system: Option<Seq<char>>,
    pub direction: Option<Seq<char>>,
    pub provider: Option<ChatProvider>,
}

impl View for ChatCommand {
    type V = ChatCommandView;

    open spec fn view(&self) -> ChatCommandView {
        ChatCommandView {
            completion: self.completion@,
            system: self.system.deep_view(),
            direction: self.direction.deep_view(),
            provider: self.provider,
        }
    }
}

impl DeepView for ChatCommand {
    type V = ChatCommandView;

    open spec fn deep_view(&self) -> ChatCommandView {
        self.view()
    }
}

impl Default for ChatCommand {
    fn default() -> (r: ChatCommand)
        ensures
            r@ == (ChatCommandView {
                completion: CompletionOptionsView::none(),
                system: None,
                direction: None,
                provider: None,
            }),
    {
        ChatCommand {
            completion: CompletionOptions::default(),
            system: None,
            direction: None,
            provider: None,
        }
    }
}

/// The models that a chat can be held with.
#[derive(Clone, Copy, Debug, PartialEq, Eq, Structural)]
#[allow(non_camel_case_types)]
pub enum ChatProvider {
    OpenAiGPT3Turbo,
    OpenAiGPT3Turbo_0301,
    OpenAiGPT4,
    OpenAiGPT4_0314,
    OpenAiGPT4_32K,
    OpenAiGPT4_32K_0314,
}

impl Default for ChatProvider {
    fn default() -> (r: ChatProvider)
        ensures
            r == ChatProvider::OpenAiGPT3Turbo,
    {
        ChatProvider::OpenAiGPT3Turbo
    }
}

impl ChatProvider {
    /// The name by which the provider knows the model.
    pub open spec fn model_name(self) -> Seq<char> {
        match self {
            ChatProvider::OpenAiGPT3Turbo => "gpt-3.5-turbo"@,
            ChatProvider::OpenAiGPT3Turbo_0301 => "gpt-3.5-turbo-0301"@,
            ChatProvider::OpenAiGPT4 => "gpt-4"@,
            ChatProvider::OpenAiGPT4_0314 => "gpt-4-0314"@,
            ChatProvider::OpenAiGPT4_32K => "gpt-4-32k"@,
            ChatProvider::OpenAiGPT4_32K_0314 => "gpt-4-32k-0314"@,
        }
    }

    /// The name by which the provider knows the model.
    pub fn to_string(&self) -> (r: String)
        ensures
            r@ == self.model_name(),
    {
        match self {
            ChatProvider::OpenAiGPT3Turbo => "gpt-3.5-turbo".to_owned(),
            ChatProvider::OpenAiGPT3Turbo_0301 => "gpt-3.5-turbo-0301".to_owned(),
            ChatProvider::OpenAiGPT4 => "gpt-4".to_owned(),
            ChatProvider::OpenAiGPT4_0314 => "gpt-4-0314".to_owned(),
            ChatProvider::OpenAiGPT4_32K => "gpt-4-32k".to_owned(),
            ChatProvider::OpenAiGPT4_32K_0314 => "gpt-4-32k-0314".to_owned(),
        }
    }
}

/// Who said a message.
#[derive(Clone, Copy, Debug, PartialEq, Eq, Structural)]
pub enum ChatRole {
    Ai,
    User,
    System,
}

impl ChatRole {
    /// The label that a message of this role starts with in a transcript.
    pub open spec fn label(self) -> Seq<char> {
        match self {
            ChatRole::Ai => "AI: "@,
            ChatRole::User => "USER: "@,
            ChatRole::System => "SYSTEM: "@,
        }
    }

    /// The label that a message of this role starts with in a transcript.
    pub fn to_string(&self) -> (r: String)
        ensures
            r@ == self.label(),
    {
        match self {
            ChatRole::Ai => "AI: ".to_owned(),
            ChatRole::User => "USER: ".to_owned(),
            ChatRole::System => "SYSTEM: ".to_owned(),
        }
    }
}

/// One message of a chat, with the number of tokens it counts for.
#[derive(Clone, Debug, PartialEq, Eq)]
pub struct ChatMessage {
    pub role: ChatRole,
    pub content: String,
    pub tokens: usize,
}

pub struct ChatMessageView {
    pub role: ChatRole,
    pub content: Seq<char>,
    pub tokens: usize,
}

impl View for ChatMessage {
    type V = ChatMessageView;

    open spec fn view(&self) -> ChatMessageView {
        ChatMessageView { role: self.role, content: self.content@, tokens: self.tokens }
    }
}

impl DeepView for ChatMessage {
    type V = ChatMessageView;

    open spec fn deep_view(&self) -> ChatMessageView {
        self.view()
    }
}

/// The transcript of a session cannot be read as messages.
#[derive(Clone, Debug, PartialEq, Eq)]
pub struct ChatTranscriptionError(pub String);

/// Why a chat failed.
#[derive(Clone, Debug, PartialEq, Eq)]
pub enum ChatError {
    ClashingArguments(ClashingArgumentsError),
    ChatTranscriptionError(ChatTranscriptionError),
    TranscriptDeserializationError(String),
    OpenAIError(OpenAIError),
    NetworkError(String),
    IOError(String),
    EventSource(String),
    Unauthorized,
}

/// The messages that a chat returns.
pub type ChatResult = Result<Vec<ChatMessage>, ChatError>;

/// The number of tokens that the tokenizer makes of a text, where it can
/// make tokens of it at all.
pub uninterp spec fn token_count(text: Seq<char>) -> Option<usize>;

/// Counts the tokens of `text`.
///
/// Stands for `tiktoken_rs::CoreBPE::encode` on the `p50k_base` tokenizer
/// with every special token allowed, and the length of what it returns.
/// Claimed: the outcome depends on the text alone.
#[verifier::external_body]
pub(crate) fn count_tokens(text: &str) -> (r: Option<usize>)
    ensures
        r == token_count(text@),
{
    let tokenizer = tiktoken_rs::p50k_base_singleton();
    match tokenizer.encode(text, &tokenizer.special_tokens()) {
        Ok((tokens, _)) => Some(tokens.len()),
        Err(_) => None,
    }
}

/// The message of `role` with `content`, where its tokens can be counted:
/// it counts for the tokens of its label and its content together.
pub open spec fn message_of(role: ChatRole, content: Seq<char>) -> Option<ChatMessageView> {
    match token_count(role.label() + content) {
        Some(tokens) => Some(ChatMessageView { role, content, tokens }),
        None => None,
    }
}

/// The text of the error for a message that cannot be counted.
pub open spec fn uncountable() -> Seq<char> {
    "The message could not be split into tokens"@
}

/// What a result with a message stands for.
pub open spec fn message_result_view(r: Result<ChatMessage, ChatError>) -> Option<ChatMessageView> {
    match r {
        Ok(m) => Some(m@),
        Err(_) => None,
    }
}

impl ChatMessage {
    /// Makes a message and counts its tokens.
    pub fn new(role: ChatRole, content: &str) -> (r: Result<ChatMessage, ChatError>)
        ensures
            message_result_view(r) == message_of(role, content@),
            r matches Err(e) ==> e matches ChatError::ChatTranscriptionError(t) && t.0@
                == uncountable(),
    {
        let mut text = role.to_string();
        text.append(content);
        match count_tokens(text.as_str()) {
            Some(tokens) => Ok(ChatMessage { role, content: content.to_owned(), tokens }),
            None => Err(
                ChatError::ChatTranscriptionError(
                    ChatTranscriptionError("The message could not be split into tokens".to_owned()),
                ),
            ),
        }
    }
}

/// The options of a chat, settled.
#[derive(Clone, Debug)]
pub struct ChatOptions {
    pub ai_responds_first: bool,
    pub completion: CompletionOptions,
    /// The direction, as the message that is sent with every exchange.
    pub direction: Option<ChatMessage>,
    pub system: String,
    pub file: CompletionFile<ChatCommand>,
    pub no_context: bool,
    pub provider: ChatProvider,
    pub prefix_ai: String,
    pub prefix_user: String,
    pub stream: bool,
    pub tokens_max: Option<usize>,
    /// The texts at which the model stops.
    pub stop: Vec<String>,
}

impl Default for ChatOptions {
    fn default() -> (r: ChatOptions)
        ensures
            !r.ai_responds_first,
            r.completion@ == CompletionOptionsView::none(),
            r.direction is None,
            r.system@ == Seq::<char>::empty(),
            r.file.transcript@ == Seq::<char>::empty(),
            !r.no_context,
            r.provider == ChatProvider::OpenAiGPT3Turbo,
            r.prefix_ai@ == Seq::<char>::empty(),
            r.prefix_user@ == Seq::<char>::empty(),
            !r.stream,
            r.tokens_max is None,
            r.stop@.len() == 0,
    {
        ChatOptions {
            ai_responds_first: false,
            completion: CompletionOptions::default(),
            direction: None,
            system: String::new(),
            file: CompletionFile { overrides: ChatCommand::default(), transcript: String::new() },
            no_context: false,
            provider: ChatProvider::OpenAiGPT3Turbo,
            prefix_ai: String::new(),
            prefix_user: String::new(),
            stream: false,
            tokens_max: None,
            stop: Vec::new(),
        }
    }
}

/// The role that a label stands for, all texts being in lowercase already:
/// the label is trimmed; the labels that the options give to the model and
/// to the user come first, then the fixed ones.
pub open spec fn role_of_lowered(label: Seq<char>, prefix_ai: Seq<char>, prefix_user: Seq<char>) -> Option<
    ChatRole,
> {
    let role = trim(label);
    if role == prefix_ai {
        Some(ChatRole::Ai)
    } else if role == prefix_user {
        Some(ChatRole::User)
    } else if role == "ai"@ || role == "assistant"@ {
        Some(ChatRole::Ai)
    } else if role == "system"@ {
        Some(ChatRole::System)
    } else if role == "user"@ {
        Some(ChatRole::User)
    } else {
        None
    }
}

/// The role that a label of a transcript stands for, where it stands for
/// one. The label and the labels of the options are taken in lowercase.
pub open spec fn role_of(label: Seq<char>, prefix_ai: Seq<char>, prefix_user: Seq<char>) -> Option<
    ChatRole,
> {
    role_of_lowered(lowercase(label), lowercase(prefix_ai), lowercase(prefix_user))
}

/// The text of the error for a label that stands for no role.
pub open spec fn unknown_role() -> Seq<char> {
    "Unknown chat role"@
}

impl ChatRole {
    /// Reads a label as a role, the label and the labels that the options
    /// give to the model and to the user being in lowercase already.
    pub fn from_lowered(label: &str, prefix_ai: &str, prefix_user: &str) -> (r: Option<ChatRole>)
        ensures
            r == role_of_lowered(label@, prefix_ai@, prefix_user@),
    {
        let role = trimmed(&chars_of(label));
        if same_chars(&role, &chars_of(prefix_ai)) {
            Some(ChatRole::Ai)
        } else if same_chars(&role, &chars_of(prefix_user)) {
            Some(ChatRole::User)
        } else if same_chars(&role, &chars_of("ai")) || same_chars(&role, &chars_of("assistant")) {
            Some(ChatRole::Ai)
        } else if same_chars(&role, &chars_of("system")) {
            Some(ChatRole::System)
        } else if same_chars(&role, &chars_of("user")) {
            Some(ChatRole::User)
        } else {
            None
        }
    }

    /// Reads the label of a line of a transcript as a role.
    pub fn try_from(label: &str, options: &ChatOptions) -> (r: Result<ChatRole, ChatError>)
        ensures
            match r {
                Ok(role) => role_of(label@, options.prefix_ai@, options.prefix_user@) == Some(role),
                Err(e) => role_of(label@, options.prefix_ai@, options.prefix_user@) is None && (
                e matches ChatError::ChatTranscriptionError(t) && t.0@ == unknown_role()),
            },
    {
        let label = to_lowercase(label);
        let ai = to_lowercase(options.prefix_ai.as_str());
        let user = to_lowercase(options.prefix_user.as_str());
        match ChatRole::from_lowered(label.as_str(), ai.as_str(), user.as_str()) {
            Some(role) => Ok(role),
            None => Err(
                ChatError::ChatTranscriptionError(
                    ChatTranscriptionError("Unknown chat role".to_owned()),
                ),
            ),
        }
    }
}

/// A message of a transcript before its tokens are counted.
pub struct Draft {
    pub role: ChatRole,
    pub content: Seq<char>,
}

/// The content of a message that opens with `label`, `lowered` being the
/// text behind the label in lowercase: that text, and the label before it
/// unless it is one of the fixed lowercase ones or the text itself starts
/// with it.
pub open spec fn opening_content_with(label: Seq<char>, dialog: Seq<char>, lowered: Seq<char>) -> Seq<
    char,
> {
    if label == "ai"@ || label == "assistant"@ || label == "user"@ || label == "system"@
        || starts_with(lowered, label) {
        dialog
    } else {
        label + seq![':', ' '] + dialog
    }
}

/// The content of a message that opens with `label`: what follows the
/// label, and the label before it unless it is one of the fixed lowercase
/// ones or the text itself starts with it.
pub open spec fn opening_content(label: Seq<char>, dialog: Seq<char>) -> Seq<char> {
    opening_content_with(label, dialog, lowercase(dialog))
}

/// The content of a message that opens with `label` and goes on with
/// `dialog`, given `dialog` in lowercase as `lowered`.
pub fn opening_text(label: &str, dialog: &str, lowered: &str) -> (r: String)
    ensures
        r@ == opening_content_with(label@, dialog@, lowered@),
{
    let name = chars_of(label);
    let fixed = same_chars(&name, &chars_of("ai")) || same_chars(&name, &chars_of("assistant"))
        || same_chars(&name, &chars_of("user")) || same_chars(&name, &chars_of("system"));
    if fixed || has_at(&chars_of(lowered), &name, 0) {
        dialog.to_owned()
    } else {
        let mut content = label.to_owned();
        content.append(": ");
        content.append(dialog);
        proof {
            reveal_strlit(": ");
            assert(": "@ =~= seq![':', ' ']);
        }
        content
    }
}

/// The message that `line` opens, if it opens one: a line opens a message
/// when what stands before its first colon is the label of a role.
pub open spec fn opening(line: Seq<char>, prefix_ai: Seq<char>, prefix_user: Seq<char>) -> Option<
    Draft,
> {
    let colon = position_of(line, 0, ':');
    if 0 <= colon < line.len() {
        match role_of(line.subrange(0, colon), prefix_ai, prefix_user) {
            Some(role) => Some(
                Draft {
                    role,
                    content: opening_content(
                        line.subrange(0, colon),
                        trim_start(line.subrange(colon + 1, line.len() as int)),
                    ),
                },
            ),
            None => None,
        }
    } else {
        None
    }
}

/// The messages that the first `n` lines of a transcript make up: those
/// that are complete, and the one that the next line may go on with. A line
/// that opens no message goes on with the one before it. `None` where the
/// first line opens none.
pub open spec fn transcribed(
    ls: Seq<Seq<char>>,
    n: int,
    prefix_ai: Seq<char>,
    prefix_user: Seq<char>,
) -> Option<(Seq<Draft>, Option<Draft>)>
    decreases n,
{
    if n <= 0 || n > ls.len() {
        Some((Seq::empty(), None))
    } else {
        match transcribed(ls, n - 1, prefix_ai, prefix_user) {
            None => None,
            Some((done, current)) => match opening(ls[n - 1], prefix_ai, prefix_user) {
                Some(next) => Some(
                    (
                        match current {
                            Some(c) => done.push(c),
                            None => done,
                        },
                        Some(next),
                    ),
                ),
                None => match current {
                    Some(c) => Some(
                        (
                            done,
                            Some(Draft { role: c.role, content: c.content + seq!['\n'] + ls[n - 1] }),
                        ),
                    ),
                    None => None,
                },
            },
        }
    }
}

/// The messages of a transcript, before their tokens are counted.
pub open spec fn drafts(transcript: Seq<char>, prefix_ai: Seq<char>, prefix_user: Seq<char>) -> Option<
    Seq<Draft>,
> {
    match transcribed(lines(transcript), lines(transcript).len() as int, prefix_ai, prefix_user) {
        None => None,
        Some((done, current)) => Some(
            match current {
                Some(c) => done.push(c),
                None => done,
            },
        ),
    }
}

/// The first `n` drafts with their tokens counted, where all can be.
pub open spec fn counted(ds: Seq<Draft>, n: int) -> Option<Seq<ChatMessageView>>
    decreases n,
{
    if n <= 0 || n > ds.len() {
        Some(Seq::empty())
    } else {
        match (counted(ds, n - 1), message_of(ds[n - 1].role, ds[n - 1].content)) {
            (Some(ms), Some(m)) => Some(ms.push(m)),
            _ => None,
        }
    }
}

/// The tokens of the first `n` messages together.
pub open spec fn total_tokens(ms: Seq<ChatMessageView>, n: int) -> int
    decreases n,
{
    if n <= 0 || n > ms.len() {
        0
    } else {
        total_tokens(ms, n - 1) + ms[n - 1].tokens
    }
}

/// Those of the messages at indices 1 up to `n` that are kept when
/// `remaining` tokens are left: the messages are gone through from the last
/// to the second, and each that still fits is kept and paid for. The
/// messages that are kept stay in their order.
pub open spec fn kept(ms: Seq<ChatMessageView>, n: int, remaining: int) -> Seq<ChatMessageView>
    decreases n,
{
    if n <= 1 || n > ms.len() {
        Seq::empty()
    } else if ms[n - 1].tokens <= remaining {
        kept(ms, n - 1, remaining - ms[n - 1].tokens).push(ms[n - 1])
    } else {
        kept(ms, n - 1, remaining)
    }
}

/// The messages cut down to `upper_bound` tokens. Messages that fit are
/// left as they are. Else `system` comes first, and of the others, but for
/// the first, those are kept that fit, the latest first. `None` where the
/// system message alone does not fit.
pub open spec fn lobotomized(
    ms: Seq<ChatMessageView>,
    system: ChatMessageView,
    upper_bound: usize,
) -> Option<Seq<ChatMessageView>> {
    if total_tokens(ms, ms.len() as int) <= upper_bound {
        Some(ms)
    } else if system.tokens > upper_bound {
        None
    } else {
        Some(seq![system] + kept(ms, ms.len() as int, upper_bound - system.tokens))
    }
}

/// The text of the error for a system message that does not fit.
pub open spec fn does_not_fit(upper_bound: usize, tokens: usize) -> Seq<char> {
    "Cannot fit your system message into the chat messages list. This means that your tokens_max value is either too small or your system message is too long. You're upper bound on transcript tokens is "@
        + decimal(upper_bound as nat) + " and your system message has "@ + decimal(tokens as nat)
        + " tokens"@
}

/// A list of messages stands for the list of what they stand for.
pub proof fn lemma_messages_view(messages: Vec<ChatMessage>)
    ensures
        messages.deep_view().len() == messages.len(),
        forall|i: int| 0 <= i < messages.len() ==> #[trigger] messages.deep_view()[i] == messages@[i]@,
{
}

proof fn lemma_total_grows(ms: Seq<ChatMessageView>, a: int, b: int)
    requires
        0 <= a <= b <= ms.len(),
    ensures
        total_tokens(ms, a) <= total_tokens(ms, b),
    decreases b - a,
{
    if a < b {
        lemma_total_grows(ms, a, b - 1);
    }
}

fn exceeds(messages: &Vec<ChatMessage>, upper_bound: usize) -> (r: bool)
    ensures
        r == (total_tokens(messages.deep_view(), messages.len() as int) > upper_bound),
{
    proof {
        lemma_messages_view(*messages);
    }
    let ghost ms = messages.deep_view();
    let mut total: usize = 0;
    let mut i: usize = 0;
    while i < messages.len()
        invariant
            i <= messages.len(),
            ms == messages.deep_view(),
            ms.len() == messages.len(),
            forall|k: int| 0 <= k < messages.len() ==> #[trigger] ms[k] == messages@[k]@,
            total == total_tokens(ms, i as int),
            total <= upper_bound,
        decreases messages.len() - i,
    {
        let tokens = messages[i].tokens;
        if tokens > upper_bound - total {
            proof {
                lemma_total_grows(ms, i + 1, ms.len() as int);
            }
            return true;
        }
        total += tokens;
        i += 1;
    }
    false
}

fn copy_message(m: &ChatMessage) -> (r: ChatMessage)
    ensures
        r@ == m@,
{
    ChatMessage { role: m.role, content: m.content.clone(), tokens: m.tokens }
}

/// What a result with a list of messages stands for.
pub open spec fn messages_result_view(r: Result<Vec<ChatMessage>, ChatError>) -> Option<
    Seq<ChatMessageView>,
> {
    match r {
        Ok(ms) => Some(ms.deep_view()),
        Err(_) => None,
    }
}

/// Cuts a list of messages down to `upper_bound` tokens, keeping `system`
/// and the latest messages that fit.
pub fn labotomize(messages: &Vec<ChatMessage>, system: &ChatMessage, upper_bound: usize) -> (r: Result<
    Vec<ChatMessage>,
    ChatError,
>)
    ensures
        messages_result_view(r) == lobotomized(messages.deep_view(), system@, upper_bound),
        r matches Err(e) ==> e matches ChatError::ChatTranscriptionError(t) && t.0@ == does_not_fit(
            upper_bound,
            system.tokens,
        ),
{
    proof {
        lemma_messages_view(*messages);
    }
    let ghost ms = messages.deep_view();
    if !exceeds(messages, upper_bound) {
        let mut same: Vec<ChatMessage> = Vec::new();
        let mut i: usize = 0;
        while i < messages.len()
            invariant
                i <= messages.len(),
                same.len() == i,
                forall|k: int| 0 <= k < i ==> same@[k]@ == messages@[k]@,
            decreases messages.len() - i,
        {
            same.push(copy_message(&messages[i]));
            i += 1;
        }
        assert(same.deep_view() =~= ms);
        return Ok(same);
    }
    if system.tokens > upper_bound {
        let mut text = chars_of(
            "Cannot fit your system message into the chat messages list. This means that your tokens_max value is either too small or your system message is too long. You're upper bound on transcript tokens is ",
        );
        let mut bound = decimal_of(upper_bound);
        text.append(&mut bound);
        let mut middle = chars_of(" and your system message has ");
        text.append(&mut middle);
        let mut tokens = decimal_of(system.tokens);
        text.append(&mut tokens);
        let mut end = chars_of(" tokens");
        text.append(&mut end);
        assert(text@ =~= does_not_fit(upper_bound, system.tokens));
        return Err(ChatError::ChatTranscriptionError(ChatTranscriptionError(to_string(&text))));
    }
    let mut remaining: usize = upper_bound - system.tokens;
    let mut reversed: Vec<ChatMessage> = Vec::new();
    let mut n: usize = messages.len();
    while n > 1
        invariant
            n <= messages.len(),
            ms == messages.deep_view(),
            ms.len() == messages.len(),
            forall|k: int| 0 <= k < messages.len() ==> #[trigger] ms[k] == messages@[k]@,
            kept(ms, ms.len() as int, upper_bound - system.tokens) == kept(
                ms,
                n as int,
                remaining as int,
            ) + reversed.deep_view().reverse(),
        decreases n,
    {
        let message = &messages[n - 1];
        let ghost before = reversed.deep_view();
        if message.tokens <= remaining {
            remaining -= message.tokens;
            reversed.push(copy_message(message));
            proof {
                assert(reversed.deep_view() =~= before.push(message@));
                assert(before.push(message@).reverse() =~= seq![message@] + before.reverse());
                let rest = kept(ms, n - 1, remaining as int);
                assert(rest.push(message@) + before.reverse() =~= rest + (seq![message@]
                    + before.reverse()));
            }
        }
        n -= 1;
    }
    let mut out: Vec<ChatMessage> = Vec::new();
    out.push(copy_message(system));
    let ghost tail = reversed.deep_view().reverse();
    assert(kept(ms, n as int, remaining as int) + tail =~= tail);
    let mut j: usize = reversed.len();
    assert(out.deep_view() =~= seq![system@] + tail.take(0));
    while j > 0
        invariant
            j <= reversed.len(),
            tail == reversed.deep_view().reverse(),
            tail.len() == reversed.len(),
            out.deep_view() == seq![system@] + tail.take(reversed.len() - j),
        decreases j,
    {
        let ghost before = out.deep_view();
        let ghost at = reversed.len() - j;
        out.push(copy_message(&reversed[j - 1]));
        proof {
            assert(reversed.deep_view()[j - 1] == reversed@[j - 1]@);
            assert(tail[at] == reversed.deep_view()[reversed.len() - 1 - at]);
            assert(out.deep_view() =~= before.push(tail[at]));
            assert(tail.take(at + 1) =~= tail.take(at).push(tail[at]));
            assert(before.push(tail[at]) =~= seq![system@] + tail.take(at + 1));
        }
        j -= 1;
    }
    assert(tail.take(reversed.len() as int) =~= tail);
    Ok(out)
}

struct Opening {
    role: ChatRole,
    content: Vec<char>,
}

impl View for Opening {
    type V = Draft;

    closed spec fn view(&self) -> Draft {
        Draft { role: self.role, content: self.content@ }
    }
}

impl DeepView for Opening {
    type V = Draft;

    closed spec fn deep_view(&self) -> Draft {
        self.view()
    }
}

fn read_opening(line: &Vec<char>, options: &ChatOptions) -> (r: Option<Opening>)
    ensures
        r.deep_view() == opening(line@, options.prefix_ai@, options.prefix_user@),
{
    let colon = find_char(line, 0, ':');
    if colon >= line.len() {
        return None;
    }
    let label = slice_of(line, 0, colon);
    let role = match ChatRole::try_from(to_string(&label).as_str(), options) {
        Ok(role) => role,
        Err(_) => { return None; },
    };
    let dialog = to_string(&trimmed_start(&slice_of(line, colon + 1, line.len())));
    let lowered = to_lowercase(dialog.as_str());
    let content = opening_text(to_string(&label).as_str(), dialog.as_str(), lowered.as_str());
    Some(Opening { role, content: chars_of(content.as_str()) })
}

/// The messages that a chat sends: the system message, the messages of
/// the transcript, and the direction if there is one, cut down to
/// `upper_bound` tokens. `None` where the transcript does not start with a
/// message, where a message cannot be counted, or where the system message
/// does not fit.
pub open spec fn chat_messages(
    system: Seq<char>,
    transcript: Seq<char>,
    prefix_ai: Seq<char>,
    prefix_user: Seq<char>,
    direction: Option<ChatMessageView>,
    upper_bound: usize,
) -> Option<Seq<ChatMessageView>> {
    match (message_of(ChatRole::System, system), drafts(transcript, prefix_ai, prefix_user)) {
        (Some(first), Some(ds)) => match counted(ds, ds.len() as int) {
            Some(ms) => lobotomized(
                seq![first] + ms + match direction {
                    Some(d) => seq![d],
                    None => Seq::empty(),
                },
                first,
                upper_bound,
            ),
            None => None,
        },
        _ => None,
    }
}

proof fn lemma_openings_view(list: Vec<Opening>)
    ensures
        list.deep_view().len() == list.len(),
        forall|i: int| 0 <= i < list.len() ==> #[trigger] list.deep_view()[i] == list@[i]@,
{
}

fn read_drafts(transcript: &str, options: &ChatOptions) -> (r: Option<Vec<Opening>>)
    ensures
        r.deep_view() == drafts(transcript@, options.prefix_ai@, options.prefix_user@),
{
    let ls = split_lines(&chars_of(transcript));
    let ghost lv = ls.deep_view();
    let ghost pa = options.prefix_ai@;
    let ghost pu = options.prefix_user@;
    assert forall|i: int| 0 <= i < ls.len() implies #[trigger] lv[i] == ls@[i]@ by {
        assert(ls@[i].deep_view() =~= ls@[i]@);
    }
    let mut done: Vec<Opening> = Vec::new();
    let mut current: Option<Opening> = None;
    let mut n: usize = 0;
    assert(done.deep_view() =~= Seq::<Draft>::empty());
    while n < ls.len()
        invariant
            n <= ls.len(),
            lv == ls.deep_view(),
            lv == lines(transcript@),
            lv.len() == ls.len(),
            pa == options.prefix_ai@,
            pu == options.prefix_user@,
            forall|i: int| 0 <= i < ls.len() ==> #[trigger] lv[i] == ls@[i]@,
            transcribed(lv, n as int, pa, pu) == Some((done.deep_view(), current.deep_view())),
        decreases ls.len() - n,
    {
        let ghost before = done.deep_view();
        match read_opening(&ls[n], options) {
            Some(next) => {
                match current {
                    Some(c) => {
                        done.push(c);
                        assert(done.deep_view() =~= before.push(c@));
                    },
                    None => {},
                }
                current = Some(next);
            },
            None => match current {
                Some(c) => {
                    let mut content = c.content;
                    let ghost start = content@;
                    content.push('\n');
                    let line = &ls[n];
                    let mut j: usize = 0;
                    while j < line.len()
                        invariant
                            j <= line.len(),
                            content@ == start + seq!['\n'] + line@.take(j as int),
                        decreases line.len() - j,
                    {
                        content.push(line[j]);
                        j += 1;
                        assert(line@.take(j as int) == line@.take(j - 1).push(line@[j - 1]));
                    }
                    assert(line@.take(line.len() as int) == line@);
                    current = Some(Opening { role: c.role, content });
                },
                None => {
                    proof {
                        lemma_transcribed_fails(lv, n + 1, ls.len() as int, pa, pu);
                    }
                    return None;
                },
            },
        }
        n += 1;
    }
    match current {
        Some(c) => {
            let ghost before = done.deep_view();
            done.push(c);
            assert(done.deep_view() =~= before.push(c@));
        },
        None => {},
    }
    Some(done)
}

proof fn lemma_transcribed_fails(
    ls: Seq<Seq<char>>,
    n: int,
    m: int,
    prefix_ai: Seq<char>,
    prefix_user: Seq<char>,
)
    requires
        0 < n <= m <= ls.len(),
        transcribed(ls, n, prefix_ai, prefix_user) is None,
    ensures
        transcribed(ls, m, prefix_ai, prefix_user) is None,
    decreases m - n,
{
    if n < m {
        lemma_transcribed_fails(ls, n, m - 1, prefix_ai, prefix_user);
    }
}

/// The text of the error for a transcript that does not start with a
/// message.
pub open spec fn missing_role() -> Seq<char> {
    "Missing opening chat role"@
}

/// Reads the transcript of a chat as the messages to send, within
/// `upper_bound` tokens.
pub fn transcript_messages(options: &ChatOptions, upper_bound: usize) -> (r: Result<
    Vec<ChatMessage>,
    ChatError,
>)
    ensures
        messages_result_view(r) == chat_messages(
            options.system@,
            options.file.transcript@,
            options.prefix_ai@,
            options.prefix_user@,
            options.direction.deep_view(),
            upper_bound,
        ),
        r matches Err(e) ==> e is ChatTranscriptionError,
        message_of(ChatRole::System, options.system@) is Some && drafts(
            options.file.transcript@,
            options.prefix_ai@,
            options.prefix_user@,
        ) is None ==> (r matches Err(ChatError::ChatTranscriptionError(t)) && t.0@ == missing_role()),
{
    let system = match ChatMessage::new(ChatRole::System, options.system.as_str()) {
        Ok(m) => m,
        Err(e) => { return Err(e); },
    };
    let openings = match read_drafts(options.file.transcript.as_str(), options) {
        Some(list) => list,
        None => {
            return Err(
                ChatError::ChatTranscriptionError(
                    ChatTranscriptionError("Missing opening chat role".to_owned()),
                ),
            );
        },
    };
    proof {
        lemma_openings_view(openings);
    }
    let ghost ds = openings.deep_view();
    let mut messages: Vec<ChatMessage> = Vec::new();
    messages.push(copy_message(&system));
    let mut n: usize = 0;
    assert(messages.deep_view() =~= seq![system@] + Seq::<ChatMessageView>::empty());
    while n < openings.len()
        invariant
            n <= openings.len(),
            ds == openings.deep_view(),
            ds.len() == openings.len(),
            forall|i: int| 0 <= i < openings.len() ==> #[trigger] ds[i] == openings@[i]@,
            message_of(ChatRole::System, options.system@) == Some(system@),
            drafts(options.file.transcript@, options.prefix_ai@, options.prefix_user@) == Some(ds),
            counted(ds, n as int) is Some,
            messages.deep_view() == seq![system@] + counted(ds, n as int)->0,
        decreases openings.len() - n,
    {
        let ghost before = messages.deep_view();
        let content = to_string(&openings[n].content);
        match ChatMessage::new(openings[n].role, content.as_str()) {
            Ok(m) => {
                messages.push(m);
                proof {
                    assert(messages.deep_view() =~= before.push(m@));
                    assert(before.push(m@) =~= seq![system@] + (counted(ds, n as int)->0).push(m@));
                }
            },
            Err(e) => {
                proof {
                    lemma_counted_fails(ds, n + 1, ds.len() as int);
                }
                return Err(e);
            },
        }
        n += 1;
    }
    let ghost counted_all = counted(ds, ds.len() as int)->0;
    match &options.direction {
        Some(d) => {
            let ghost before = messages.deep_view();
            messages.push(copy_message(d));
            assert(messages.deep_view() =~= before.push(d@));
            assert(before.push(d@) =~= seq![system@] + counted_all + seq![d@]);
        },
        None => {
            assert(messages.deep_view() =~= seq![system@] + counted_all + Seq::<
                ChatMessageView,
            >::empty());
        },
    }
    labotomize(&messages, &system, upper_bound)
}

proof fn lemma_counted_fails(ds: Seq<Draft>, n: int, m: int)
    requires
        0 < n <= m <= ds.len(),
        counted(ds, n) is None,
    ensures
        counted(ds, m) is None,
    decreases m - n,
{
    if n < m {
        lemma_counted_fails(ds, n, m - 1);
    }
}

/// The system text of a chat that is given none.
pub open spec fn default_system() -> Seq<char> {
    "A friendly and helpful AI assistant."@
}

fn text_or(text: &Option<String>, default: &str) -> (r: String)
    ensures
        r@ == match text {
            Some(t) => t@,
            None => default@,
        },
{
    match text {
        Some(t) => t.clone(),
        None => default.to_owned(),
    }
}

impl ChatOptions {
    /// Settles the options of `command`. `file` is the session file as it
    /// was loaded. Where the session has a name, the options that it was
    /// started with complete those of the command.
    pub fn try_from(command: &ChatCommand, file: CompletionFile<ChatCommand>) -> (r: Result<
        ChatOptions,
        ChatError,
    >)
        ensures
            ({
                let completion = if command.completion.name is Some {
                    command.completion@.merge(file.overrides.completion@)
                } else {
                    command.completion@
                };
                let direction = match command.direction {
                    Some(d) => message_of(ChatRole::System, d@),
                    None => None,
                };
                match r {
                    Err(ChatError::ClashingArguments(_)) => completion.stream_option() is None,
                    Err(ChatError::ChatTranscriptionError(_)) => completion.stream_option() is Some
                        && command.direction is Some && direction is None,
                    Err(_) => false,
                    Ok(o) => {
                        &&& completion.stream_option() == Some(o.stream)
                        &&& o.completion@ == completion
                        &&& o.direction.deep_view() == direction
                        &&& (command.direction is Some ==> direction is Some)
                        &&& o.system@ == match (command.system, file.overrides.system) {
                            (Some(s), _) => s@,
                            (None, Some(s)) => s@,
                            (None, None) => default_system(),
                        }
                        &&& o.file == file
                        &&& o.ai_responds_first == (completion.ai_responds_first == Some(true))
                        &&& o.no_context == (completion.no_context == Some(true))
                        &&& o.provider == match command.provider {
                            Some(p) => p,
                            None => ChatProvider::OpenAiGPT3Turbo,
                        }
                        &&& o.prefix_ai@ == match completion.prefix_ai {
                            Some(p) => p,
                            None => "AI"@,
                        }
                        &&& o.prefix_user@ == match completion.prefix_user {
                            Some(p) => p,
                            None => "USER"@,
                        }
                        &&& o.tokens_max == completion.tokens_max
                        &&& o.stop@.len() == 0
                    },
                }
            }),
    {
        let completion = if command.completion.name.is_some() {
            command.completion.merge(&file.overrides.completion)
        } else {
            command.completion.merge(&command.completion)
        };
        assert(command.completion@.merge(command.completion@) == command.completion@);
        let stream = match completion.parse_stream_option() {
            Ok(s) => s,
            Err(e) => { return Err(ChatError::ClashingArguments(e)); },
        };
        let system = match &command.system {
            Some(s) => s.clone(),
            None => text_or(&file.overrides.system, "A friendly and helpful AI assistant."),
        };
        let direction = match &command.direction {
            Some(d) => match ChatMessage::new(ChatRole::System, d.as_str()) {
                Ok(m) => Some(m),
                Err(e) => { return Err(e); },
            },
            None => None,
        };
        Ok(
            ChatOptions {
                ai_responds_first: match completion.ai_responds_first {
                    Some(b) => b,
                    None => false,
                },
                direction,
                no_context: match completion.no_context {
                    Some(b) => b,
                    None => false,
                },
                provider: match command.provider {
                    Some(p) => p,
                    None => ChatProvider::OpenAiGPT3Turbo,
                },
                prefix_ai: text_or(&completion.prefix_ai, "AI"),
                prefix_user: text_or(&completion.prefix_user, "USER"),
                system,
                tokens_max: completion.tokens_max,
                completion,
                stream,
                file,
                stop: Vec::new(),
            },
        )
    }

    /// Whether what the chat has written so far is shown when it starts.
    pub fn shows_transcript(&self) -> (r: bool)
        ensures
            r == (self.completion.quiet != Some(true) && self.file.transcript@.len() > 0),
    {
        let quiet = match self.completion.quiet {
            Some(q) => q,
            None => false,
        };
        !quiet && self.file.transcript.as_str().unicode_len() > 0
    }
}

} // verus!
