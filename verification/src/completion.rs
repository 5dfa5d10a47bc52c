//! The options that every kind of completion shares, and the transcript of a
//! session as it is kept while the session runs.

use vstd::prelude::*;
use crate::text::{
    chars_of, find, find_from, find_in, occurs_at, slice_of, to_string, trim, trimmed,
};

verus! {

/// The options of a completion. An option that is `None` was not given.
#[derive(Clone, Debug, PartialEq, Eq)]
pub struct CompletionOptions {
    /// Let the model answer before the user has said anything.
    pub ai_responds_first: Option<bool>,
    /// Text to add to the session as the user's next line.
    pub append: Option<String>,
    /// The name under which the session is kept.
    pub name: Option<String>,
    /// Send every line on its own, without what was said before.
    pub no_context: Option<bool>,
    /// Return after one exchange.
    pub once: Option<bool>,
    /// Start the session over if it exists.
    pub overwrite: Option<bool>,
    /// Write to the session file only.
    pub quiet: Option<bool>,
    /// The label of the model's lines.
    pub prefix_ai: Option<String>,
    /// The label of the user's lines.
    pub prefix_user: Option<String>,
    /// The number of answers to ask for.
    pub response_count: Option<usize>,
    /// Show the answer while it arrives.
    pub stream: Option<bool>,
    /// The most tokens that one request may use.
    pub tokens_max: Option<usize>,
}

pub struct CompletionOptionsView {
    pub ai_responds_first: Option<bool>,
    pub append: Option<Seq<char>>,
    pub name: Option<Seq<char>>,
    pub no_context: Option<bool>,
    pub once: Option<bool>,
    pub overwrite: Option<bool>,
    pub quiet: Option<bool>,
    pub prefix_ai: Option<Seq<char>>,
    pub prefix_user: Option<Seq<char>>,
    pub response_count: Option<usize>,
    pub stream: Option<bool>,
    pub tokens_max: Option<usize>,
}

impl View for CompletionOptions {
    type V = CompletionOptionsView;

    open spec fn view(&self) -> CompletionOptionsView {
        CompletionOptionsView {
            ai_responds_first: self.ai_responds_first,
            append: self.append.deep_view(),
            name: self.name.deep_view(),
            no_context: self.no_context,
            once: self.once,
            overwrite: self.overwrite,
            quiet: self.quiet,
            prefix_ai: self.prefix_ai.deep_view(),
            prefix_user: self.prefix_user.deep_view(),
            response_count: self.response_count,
            stream: self.stream,
            tokens_max: self.tokens_max,
        }
    }
}

/// The first of two options that was given.
pub open spec fn or<T>(a: Option<T>, b: Option<T>) -> Option<T> {
    if a is Some {
        a
    } else {
        b
    }
}

impl CompletionOptionsView {
    /// No option given.
    pub open spec fn none() -> CompletionOptionsView {
        CompletionOptionsView {
            ai_responds_first: None,
            append: None,
            name: None,
            no_context: None,
            once: None,
            overwrite: None,
            quiet: None,
            prefix_ai: None,
            prefix_user: None,
            response_count: None,
            stream: None,
            tokens_max: None,
        }
    }

    /// These options, and for each that was not given the one of `other`.
    pub open spec fn merge(self, other: CompletionOptionsView) -> CompletionOptionsView {
        CompletionOptionsView {
            ai_responds_first: or(self.ai_responds_first, other.ai_responds_first),
            append: or(self.append, other.append),
            name: or(self.name, other.name),
            no_context: or(self.no_context, other.no_context),
            once: or(self.once, other.once),
            overwrite: or(self.overwrite, other.overwrite),
            quiet: or(self.quiet, other.quiet),
            prefix_ai: or(self.prefix_ai, other.prefix_ai),
            prefix_user: or(self.prefix_user, other.prefix_user),
            response_count: or(self.response_count, other.response_count),
            stream: or(self.stream, other.stream),
            tokens_max: or(self.tokens_max, other.tokens_max),
        }
    }

    /// Whether the answer is shown while it arrives: yes unless the options
    /// say quiet or say not to. Quiet and streaming together is refused.
    pub open spec fn stream_option(self) -> Option<bool> {
        if self.quiet == Some(true) {
            if self.stream == Some(true) {
                None
            } else {
                Some(false)
            }
        } else {
            Some(self.stream != Some(false))
        }
    }

    /// The first rule that the options break, as the text that says so.
    pub open spec fn clash(self) -> Option<Seq<char>> {
        if self.name is None && self.append is Some {
            Some("The append option also requires a session name"@)
        } else if self.name is None && self.overwrite == Some(true) {
            Some("The overwrite options also requires a session name"@)
        } else if self.ai_responds_first == Some(true) && self.append is Some {
            Some(
                "Specifying that the ai responds first with the append option is nonsensical"@,
            )
        } else if self.response_count == Some(0usize) {
            Some("The response count should be more than 0"@)
        } else {
            None
        }
    }
}

fn first_flag(a: Option<bool>, b: Option<bool>) -> (r: Option<bool>)
    ensures
        r == or(a, b),
{
    match a {
        Some(_) => a,
        None => b,
    }
}

fn first_count(a: Option<usize>, b: Option<usize>) -> (r: Option<usize>)
    ensures
        r == or(a, b),
{
    match a {
        Some(_) => a,
        None => b,
    }
}

fn first_text(a: &Option<String>, b: &Option<String>) -> (r: Option<String>)
    ensures
        r.deep_view() == or(a.deep_view(), b.deep_view()),
{
    match a {
        Some(s) => Some(s.clone()),
        None => match b {
            Some(s) => Some(s.clone()),
            None => None,
        },
    }
}

impl Default for CompletionOptions {
    fn default() -> (r: CompletionOptions)
        ensures
            r@ == CompletionOptionsView::none(),
    {
        CompletionOptions {
            ai_responds_first: None,
            append: None,
            name: None,
            no_context: None,
            once: None,
            overwrite: None,
            quiet: None,
            prefix_ai: None,
            prefix_user: None,
            response_count: None,
            stream: None,
            tokens_max: None,
        }
    }
}

/// Two options clash; `error` says which.
#[derive(Clone, Debug, PartialEq, Eq)]
pub struct ClashingArgumentsError {
    pub error: String,
}

impl ClashingArgumentsError {
    pub fn new(error: String) -> (r: ClashingArgumentsError)
        ensures
            r.error == error,
    {
        ClashingArgumentsError { error }
    }
}

impl CompletionOptions {
    /// These options, completed by those of `merged` where none was given.
    pub fn merge(&self, merged: &CompletionOptions) -> (r: CompletionOptions)
        ensures
            r@ == self@.merge(merged@),
    {
        CompletionOptions {
            ai_responds_first: first_flag(self.ai_responds_first, merged.ai_responds_first),
            append: first_text(&self.append, &merged.append),
            name: first_text(&self.name, &merged.name),
            no_context: first_flag(self.no_context, merged.no_context),
            once: first_flag(self.once, merged.once),
            overwrite: first_flag(self.overwrite, merged.overwrite),
            quiet: first_flag(self.quiet, merged.quiet),
            prefix_ai: first_text(&self.prefix_ai, &merged.prefix_ai),
            prefix_user: first_text(&self.prefix_user, &merged.prefix_user),
            response_count: first_count(self.response_count, merged.response_count),
            stream: first_flag(self.stream, merged.stream),
            tokens_max: first_count(self.tokens_max, merged.tokens_max),
        }
    }

    /// Whether the answer is to be shown while it arrives.
    pub fn parse_stream_option(&self) -> (r: Result<bool, ClashingArgumentsError>)
        ensures
            match r {
                Ok(b) => self@.stream_option() == Some(b),
                Err(e) => self@.stream_option() is None && e.error@
                    == "Having both quiet and stream enabled doesn't make sense."@,
            },
    {
        match (self.quiet, self.stream) {
            (Some(true), Some(true)) => Err(
                ClashingArgumentsError::new(
                    "Having both quiet and stream enabled doesn't make sense.".to_owned(),
                ),
            ),
            (Some(true), _) => Ok(false),
            (_, Some(false)) => Ok(false),
            _ => Ok(true),
        }
    }

    /// Checks the options against each other.
    pub fn validate(&self) -> (r: Result<(), ClashingArgumentsError>)
        ensures
            match r {
                Ok(_) => self@.clash() is None,
                Err(e) => self@.clash() == Some(e.error@),
            },
    {
        if self.name.is_none() {
            if self.append.is_some() {
                return Err(
                    ClashingArgumentsError::new(
                        "The append option also requires a session name".to_owned(),
                    ),
                );
            }
            if let Some(true) = self.overwrite {
                return Err(
                    ClashingArgumentsError::new(
                        "The overwrite options also requires a session name".to_owned(),
                    ),
                );
            }
        }
        if let Some(true) = self.ai_responds_first {
            if self.append.is_some() {
                return Err(
                    ClashingArgumentsError::new(
                        "Specifying that the ai responds first with the append option is nonsensical".to_owned(),
                    ),
                );
            }
        }
        if let Some(count) = self.response_count {
            if count == 0 {
                return Err(
                    ClashingArgumentsError::new(
                        "The response count should be more than 0".to_owned(),
                    ),
                );
            }
        }
        Ok(())
    }
}

/// The divider between the configuration and the transcript of a session
/// file.
pub open spec fn divider() -> Seq<char> {
    seq!['<', '-', '>']
}

/// The text of a session file: the configuration block, the divider on a
/// line of its own, and the transcript.
pub open spec fn session_text(config: Seq<char>, transcript: Seq<char>) -> Seq<char> {
    config + divider() + seq!['\n'] + transcript
}

/// The two parts of a session file: what stands before the first divider,
/// and what follows the divider and its line feed, as it stands. `None`
/// where the text has no divider.
pub open spec fn session_parts(text: Seq<char>) -> Option<(Seq<char>, Seq<char>)> {
    match find(text, divider()) {
        None => None,
        Some(at) => Some(
            (
                text.subrange(0, at),
                text.subrange(
                    if at + 4 <= text.len() {
                        at + 4
                    } else {
                        text.len() as int
                    },
                    text.len() as int,
                ),
            ),
        ),
    }
}

/// What a session file holds.
#[derive(Clone, Debug, PartialEq, Eq)]
pub struct SessionParts {
    /// The configuration block, as text.
    pub config: String,
    /// The transcript so far.
    pub transcript: String,
}

/// The divider, as characters.
pub(crate) fn divider_chars() -> (r: Vec<char>)
    ensures
        r@ == divider(),
{
    let mut r: Vec<char> = Vec::new();
    r.push('<');
    r.push('-');
    r.push('>');
    assert(r@ =~= divider());
    r
}

impl CompletionOptions {
    /// Takes the text of a session file apart.
    pub fn load_session_file(contents: &str) -> (r: Option<SessionParts>)
        ensures
            match r {
                Some(parts) => session_parts(contents@) == Some((parts.config@, parts.transcript@)),
                None => session_parts(contents@) is None,
            },
    {
        let text = chars_of(contents);
        let mark = divider_chars();
        match find_in(&text, &mark, 0) {
            None => None,
            Some(at) => {
                let start = if text.len() - at >= 4 {
                    at + 4
                } else {
                    text.len()
                };
                let config = slice_of(&text, 0, at);
                let transcript = slice_of(&text, start, text.len());
                Some(SessionParts { config: to_string(&config), transcript: to_string(&transcript) })
            },
        }
    }
}

/// The transcript of a running session, and the options it was started
/// with.
#[derive(Clone, Debug)]
pub struct CompletionFile<T> {
    pub overrides: T,
    pub transcript: String,
}

/// A line as it is entered into the transcript: trimmed, and behind the
/// user's label if there is one.
pub open spec fn labelled_line(line: Seq<char>, prefix_user: Option<Seq<char>>) -> Seq<char> {
    match prefix_user {
        None => trim(line),
        Some(prefix) => prefix + seq![':', ' '] + trim(line),
    }
}

/// The user's next line as it is entered: `append` if there is one, else
/// what the user typed, trimmed and behind the user's label. `None` where
/// there is neither.
pub open spec fn user_entry(
    append: Option<Seq<char>>,
    typed: Option<Seq<char>>,
    prefix_user: Option<Seq<char>>,
) -> Option<Seq<char>> {
    match or(append, typed) {
        None => None,
        Some(line) => Some(labelled_line(line, prefix_user)),
    }
}

/// What an optional text stands for.
pub open spec fn text_view(text: Option<&str>) -> Option<Seq<char>> {
    match text {
        Some(t) => Some(t@),
        None => None,
    }
}

/// The user's next line as it is to be entered into the transcript and
/// into the session file.
pub fn next_entry(append: Option<&str>, typed: Option<&str>, prefix_user: Option<&str>) -> (r: Option<
    String,
>)
    ensures
        r.deep_view() == user_entry(text_view(append), text_view(typed), text_view(prefix_user)),
{
    let line = match append {
        Some(line) => line,
        None => match typed {
            Some(line) => line,
            None => { return None; },
        },
    };
    let chars = chars_of(line);
    let body = to_string(&trimmed(&chars));
    match prefix_user {
        None => Some(body),
        Some(prefix) => {
            let mut entry = prefix.to_owned();
            entry.append(": ");
            entry.append(body.as_str());
            proof {
                reveal_strlit(": ");
                assert(": "@ =~= seq![':', ' ']);
            }
            Some(entry)
        },
    }
}

impl<T> CompletionFile<T> {
    /// The state of a session that was just opened. A session that exists
    /// already goes on with the configuration `stored` in its file; a new
    /// one starts with `overrides`.
    pub fn new(transcript: String, stored: Option<T>, overrides: T) -> (r: CompletionFile<T>)
        ensures
            r.transcript == transcript,
            r.overrides == match stored {
                Some(s) => s,
                None => overrides,
            },
    {
        match stored {
            Some(s) => CompletionFile { overrides: s, transcript },
            None => CompletionFile { overrides, transcript },
        }
    }

    /// Adds `words` to the transcript as they are.
    pub fn write_words(&mut self, words: String) -> (r: String)
        ensures
            final(self).transcript@ == old(self).transcript@ + words@,
            final(self).overrides == old(self).overrides,
            r == words,
    {
        self.transcript.append(words.as_str());
        words
    }

    /// Adds `line` to the transcript as a line of its own.
    pub fn write(&mut self, line: String) -> (r: String)
        ensures
            final(self).transcript@ == old(self).transcript@ + line@ + seq!['\n'],
            final(self).overrides == old(self).overrides,
            r == line,
    {
        self.transcript.append(line.as_str());
        self.transcript.append("\n");
        proof {
            reveal_strlit("\n");
            assert("\n"@ =~= seq!['\n']);
        }
        line
    }

    /// Enters the user's next line: `append` if there is one, else what the
    /// user `typed`. Nothing is entered when there is neither.
    pub fn read(&mut self, append: Option<&str>, typed: Option<&str>, prefix_user: Option<&str>) -> (r:
        Option<String>)
        ensures
            final(self).overrides == old(self).overrides,
            r.deep_view() == user_entry(text_view(append), text_view(typed), text_view(prefix_user)),
            match r {
                None => final(self).transcript@ == old(self).transcript@,
                Some(entry) => final(self).transcript@ == old(self).transcript@ + entry@ + seq![
                    '\n',
                ],
            },
    {
        match next_entry(append, typed, prefix_user) {
            None => None,
            Some(entry) => Some(self.write(entry)),
        }
    }
}

proof fn lemma_absent(s: Seq<char>, needle: Seq<char>, i: int, k: int)
    requires
        0 <= i <= k,
        find_from(s, needle, i) is None,
    ensures
        !occurs_at(s, needle, k),
    decreases k - i,
{
    if i + needle.len() <= s.len() && i < k {
        lemma_absent(s, needle, i + 1, k);
    }
}

proof fn lemma_found(s: Seq<char>, needle: Seq<char>, i: int, at: int)
    requires
        0 <= i <= at,
        occurs_at(s, needle, at),
        forall|k: int| i <= k < at ==> !occurs_at(s, needle, k),
    ensures
        find_from(s, needle, i) == Some(at),
    decreases at - i,
{
    if i < at {
        lemma_found(s, needle, i + 1, at);
    }
}

/// A session file that is written and read again gives back what was
/// written: the configuration block as it was, and the transcript as it
/// was, whatever it holds. This holds where the configuration block does
/// not itself hold the divider.
pub proof fn lemma_session_round_trip(config: Seq<char>, transcript: Seq<char>)
    requires
        find(config, divider()) is None,
    ensures
        session_parts(session_text(config, transcript)) == Some((config, transcript)),
{
    let text = session_text(config, transcript);
    let n = config.len() as int;
    assert(text.len() == n + 4 + transcript.len());
    assert(text.subrange(n, n + 3) =~= divider());
    assert forall|k: int| 0 <= k < n implies !occurs_at(text, divider(), k) by {
        if k + 3 <= n {
            lemma_absent(config, divider(), 0, k);
            assert(text.subrange(k, k + 3) =~= config.subrange(k, k + 3));
        } else if k + 3 <= text.len() {
            let w = text.subrange(k, k + 3);
            if k == n - 1 {
                assert(w[1] == text[n]);
                assert(text[n] == '<');
                assert(divider()[1] == '-');
            } else {
                assert(w[2] == text[n]);
                assert(text[n] == '<');
                assert(divider()[2] == '>');
            }
        }
    }
    lemma_found(text, divider(), 0, n);
    assert(text.subrange(0, n) =~= config);
    assert(text.subrange(n + 4, text.len() as int) =~= transcript);
}

} // verus!
