//! A session with a completion model: the prompt is a template that the
//! transcript is put into, and the model writes what comes next.

use vstd::prelude::*;
use crate::cohere::session::CohereError;
use crate::completion::{ClashingArgumentsError, CompletionFile, CompletionOptions};
use crate::openai::error::OpenAIError;
use crate::text::{chars_of, replace, replaced, to_string, trim, trimmed};

verus! {

/// The provider of the model.
#[derive(Clone, Copy, Debug, PartialEq, Eq, Structural)]
pub enum Provider {
    Cohere,
    OpenAI,
}

impl Default for Provider {
    fn default() -> (r: Provider)
        ensures
            r == Provider::OpenAI,
    {
        Provider::OpenAI
    }
}

/// The size of the model, by the number of its parameters.
#[derive(Clone, Copy, Debug, PartialEq, Eq, Structural)]
pub enum Model {
    /// Up to 1 billion.
    Tiny,
    /// 1 to 5 billion.
    Small,
    /// 5 to 10 billion.
    Medium,
    /// 10 to 50 billion.
    Large,
    /// 50 to 150 billion.
    XLarge,
    /// More than 150 billion.
    XXLarge,
}

impl Default for Model {
    fn default() -> (r: Model)
        ensures
            r == Model::XXLarge,
    {
        Model::XXLarge
    }
}

/// What the model is made for.
#[derive(Clone, Copy, Debug, PartialEq, Eq, Structural)]
pub enum ModelFocus {
    Code,
    Text,
}

impl Default for ModelFocus {
    fn default() -> (r: ModelFocus)
        ensures
            r == ModelFocus::Text,
    {
        ModelFocus::Text
    }
}

/// A request for a session.
#[derive(Clone, Debug, PartialEq, Eq)]
pub struct SessionCommand {
    pub completion: CompletionOptions,
    pub model: Option<Model>,
    pub model_focus: Option<ModelFocus>,
    /// The prompt template.
    pub prompt: Option<String>,
    /// A file that holds the prompt template.
    pub prompt_path: Option<String>,
    pub provider: Option<Provider>,
}

/// Why a session failed.
#[derive(Clone, Debug, PartialEq, Eq)]
pub enum SessionError {
    NoMatchingModel,
    TemperatureOutOfValidRange,
    ClashingArguments(ClashingArgumentsError),
    CohereError(CohereError),
    OpenAIError(OpenAIError),
    IOError(String),
    DeserializeError(String),
    Unauthorized,
}

/// The answers of a session.
pub type SessionResult = Result<Vec<String>, SessionError>;

pub trait SessionResultExt {
    /// The first answer, if the session succeeded and gave one.
    fn single_result(&self) -> (r: Option<&str>);
}

impl SessionResultExt for SessionResult {
    fn single_result(&self) -> (r: Option<&str>)
        ensures
            match r {
                Some(s) => self matches Ok(answers) && answers@.len() > 0 && s@ == answers@[0]@,
                None => !(self matches Ok(answers) && answers@.len() > 0),
            },
    {
        match self {
            Ok(answers) => if answers.len() > 0 {
                Some(answers[0].as_str())
            } else {
                None
            },
            Err(_) => None,
        }
    }
}

/// The mark in a prompt template that stands for the transcript.
pub open spec fn transcript_mark() -> Seq<char> {
    "${TRANSCRIPT}"@
}

/// The template for a model made for code: the transcript alone.
pub const DEFAULT_CODE_PROMPT_WRAPPER: &'static str = "${TRANSCRIPT}";

/// The template for a model made for text.
pub const DEFAULT_CHAT_PROMPT_WRAPPER: &'static str =
    "\nThe following is a transcript between a helpful AI assistant and a human. The AI assistant can provide factual information (but only from before mid 2021, when its training data cuts off), ask clarifying questions, and engage in chit chat.\n\nTranscript:\n\n${TRANSCRIPT}\n\n";

/// The template that a session uses when it is given none.
pub open spec fn default_prompt(focus: Option<ModelFocus>) -> Seq<char> {
    match focus {
        Some(ModelFocus::Code) => DEFAULT_CODE_PROMPT_WRAPPER@,
        _ => DEFAULT_CHAT_PROMPT_WRAPPER@,
    }
}

impl SessionCommand {
    /// Whether every line is sent on its own: as the options say, and if
    /// they say nothing, for a model made for code.
    pub open spec fn no_context_option(self) -> bool {
        match self.completion.no_context {
            Some(b) => b,
            None => self.model_focus == Some(ModelFocus::Code),
        }
    }

    /// The prompt template: the one given; else what the file at
    /// `prompt_path` holds, where it could be read; else the default for the
    /// model's focus.
    pub open spec fn prompt_option(self, from_file: Option<Seq<char>>) -> Seq<char> {
        match (self.prompt, self.prompt_path, from_file) {
            (Some(p), _, _) => p@,
            (None, Some(_), Some(f)) => f,
            _ => default_prompt(self.model_focus),
        }
    }

    /// Whether every line is sent on its own: as the options say, and if
    /// they say nothing, for a model made for code.
    pub fn parse_no_context_option(&self) -> (r: bool)
        ensures
            r == self.no_context_option(),
    {
        match self.completion.no_context {
            Some(b) => b,
            None => match self.model_focus {
                Some(ModelFocus::Code) => true,
                _ => false,
            },
        }
    }

    /// The prompt template: the one given; else what the file at
    /// `prompt_path` holds, handed in as `from_file` where it could be read;
    /// else the default for the model's focus.
    pub fn parse_prompt_option(&self, from_file: Option<String>) -> (r: String)
        ensures
            r@ == self.prompt_option(from_file.deep_view()),
    {
        match &self.prompt {
            Some(p) => p.clone(),
            None => match (&self.prompt_path, from_file) {
                (Some(_), Some(f)) => f,
                _ => match self.model_focus {
                    Some(ModelFocus::Code) => DEFAULT_CODE_PROMPT_WRAPPER.to_owned(),
                    _ => DEFAULT_CHAT_PROMPT_WRAPPER.to_owned(),
                },
            },
        }
    }
}

/// The options of a session, settled.
#[derive(Clone, Debug)]
pub struct SessionOptions {
    pub ai_responds_first: bool,
    pub completion: CompletionOptions,
    pub file: CompletionFile<SessionCommand>,
    pub model: Model,
    pub model_focus: ModelFocus,
    pub prompt: String,
    pub stream: bool,
    pub no_context: bool,
    pub provider: Provider,
}

/// The prompt that is sent: the template with the transcript put in, or
/// with the last line alone where every line is sent on its own, and the
/// model's label after it if it has one.
pub open spec fn rendered(
    template: Seq<char>,
    transcript: Seq<char>,
    line: Seq<char>,
    no_context: bool,
    prefix_ai: Option<Seq<char>>,
) -> Seq<char> {
    replace(
        template,
        transcript_mark(),
        if no_context {
            line
        } else {
            transcript
        },
    ) + match prefix_ai {
        Some(p) => p,
        None => Seq::empty(),
    }
}

/// What is done with the answers of the model.
#[derive(Clone, Debug, PartialEq, Eq)]
pub enum SessionStep {
    /// The session returns these answers.
    Return(Vec<String>),
    /// The answer, as `shown`, is shown unless the session is quiet, and
    /// the user's next line is read.
    Continue { shown: Option<String> },
}

impl SessionOptions {
    /// Settles the options of `command`. `file` is the session file as it
    /// was loaded, `from_file` what the file at `prompt_path` holds. The
    /// options that the session was started with complete those of the
    /// command where the session has a name.
    pub fn try_from(
        command: &SessionCommand,
        file: CompletionFile<SessionCommand>,
        from_file: Option<String>,
    ) -> (r: Result<SessionOptions, SessionError>)
        ensures
            ({
                let completion = if command.completion.name is Some {
                    command.completion@.merge(file.overrides.completion@)
                } else {
                    command.completion@
                };
                match r {
                    Err(SessionError::ClashingArguments(e)) => {
                        ||| completion.clash() == Some(e.error@)
                        ||| completion.clash() is None && completion.stream_option() is None
                    },
                    Err(_) => false,
                    Ok(o) => {
                        &&& completion.clash() is None
                        &&& completion.stream_option() == Some(o.stream)
                        &&& o.completion@ == completion
                        &&& o.ai_responds_first == (completion.ai_responds_first == Some(true))
                        &&& o.prompt@ == command.prompt_option(from_file.deep_view())
                        &&& o.no_context == command.no_context_option()
                        &&& o.file == file
                        &&& o.model == match command.model {
                            Some(m) => m,
                            None => Model::XXLarge,
                        }
                        &&& o.model_focus == match command.model_focus {
                            Some(f) => f,
                            None => ModelFocus::Text,
                        }
                        &&& o.provider == match command.provider {
                            Some(p) => p,
                            None => Provider::OpenAI,
                        }
                    },
                }
            }),
    {
        let completion = if command.completion.name.is_some() {
            command.completion.merge(&file.overrides.completion)
        } else {
            command.completion.merge(&command.completion)
        };
        assert(command.completion@.merge(command.completion@) == command.completion@);
        match completion.validate() {
            Err(e) => { return Err(SessionError::ClashingArguments(e)); },
            Ok(_) => {},
        }
        let stream = match completion.parse_stream_option() {
            Err(e) => { return Err(SessionError::ClashingArguments(e)); },
            Ok(s) => s,
        };
        Ok(
            SessionOptions {
                ai_responds_first: match completion.ai_responds_first {
                    Some(b) => b,
                    None => false,
                },
                stream,
                prompt: command.parse_prompt_option(from_file),
                no_context: command.parse_no_context_option(),
                model: match command.model {
                    Some(m) => m,
                    None => Model::XXLarge,
                },
                model_focus: match command.model_focus {
                    Some(f) => f,
                    None => ModelFocus::Text,
                },
                provider: match command.provider {
                    Some(p) => p,
                    None => Provider::OpenAI,
                },
                completion,
                file,
            },
        )
    }

    /// The prompt to send after the user's line `line`.
    pub fn render_prompt(&self, line: &str) -> (r: String)
        ensures
            r@ == rendered(
                self.prompt@,
                self.file.transcript@,
                line@,
                self.no_context,
                self.completion@.prefix_ai,
            ),
    {
        let template = chars_of(self.prompt.as_str());
        let mark = chars_of("${TRANSCRIPT}");
        let with = if self.no_context {
            chars_of(line)
        } else {
            chars_of(self.file.transcript.as_str())
        };
        let mut out = to_string(&replaced(&template, &mark, &with));
        match &self.completion.prefix_ai {
            Some(p) => {
                out.append(p.as_str());
            },
            None => {
                assert(out@ + Seq::<char>::empty() =~= out@);
            },
        }
        out
    }

    /// Takes the answers of the model in. Where more than one answer was
    /// asked for, they are returned as they are. Else the first, trimmed,
    /// is written to the transcript; it is returned where the user's line
    /// was given with the options, and shown otherwise, behind the model's
    /// label.
    pub fn accept(&mut self, answers: Vec<String>) -> (r: SessionStep)
        ensures
            final(self).ai_responds_first == old(self).ai_responds_first,
            final(self).completion == old(self).completion,
            final(self).file.overrides == old(self).file.overrides,
            final(self).model == old(self).model,
            final(self).model_focus == old(self).model_focus,
            final(self).prompt == old(self).prompt,
            final(self).stream == old(self).stream,
            final(self).no_context == old(self).no_context,
            final(self).provider == old(self).provider,
            match old(self).completion.response_count {
                Some(n) if n > 1 => r == SessionStep::Return(answers) && final(self).file == old(
                    self,
                ).file,
                _ => if answers@.len() == 0 {
                    r matches SessionStep::Return(list) && list@.len() == 0 && final(self).file
                        == old(self).file
                } else {
                    let text = trim(answers@[0]@);
                    &&& final(self).file.transcript@ == old(self).file.transcript@ + text + seq![
                        '\n',
                    ]
                    &&& match r {
                        SessionStep::Return(list) => old(self).completion.append is Some
                            && list.deep_view() == seq![text],
                        SessionStep::Continue { shown } => old(self).completion.append is None
                            && shown.deep_view() == if old(self).completion.quiet == Some(true) {
                            None
                        } else {
                            Some(
                                match old(self).completion@.prefix_ai {
                                    Some(p) => p + text,
                                    None => text,
                                },
                            )
                        },
                    }
                },
            },
    {
        if let Some(count) = self.completion.response_count {
            if count > 1 {
                return SessionStep::Return(answers);
            }
        }
        if answers.len() == 0 {
            return SessionStep::Return(Vec::new());
        }
        let text = to_string(&trimmed(&chars_of(answers[0].as_str())));
        let written = self.file.write(text);
        if self.completion.append.is_some() {
            let mut list: Vec<String> = Vec::new();
            list.push(written);
            assert(list.deep_view() =~= seq![written@]);
            return SessionStep::Return(list);
        }
        let quiet = match self.completion.quiet {
            Some(q) => q,
            None => false,
        };
        if quiet {
            SessionStep::Continue { shown: None }
        } else {
            let shown = match &self.completion.prefix_ai {
                Some(p) => {
                    let mut s = p.clone();
                    s.append(written.as_str());
                    s
                },
                None => written,
            };
            SessionStep::Continue { shown: Some(shown) }
        }
    }
}

} // verus!
