//! The evaluator of prompt programs.
//!
//! Evaluating a prompt alternates work that only the outside can do (an
//! exchange with the chat service, a shell command, the prompts that a call
//! fans out to) with decisions. The decisions are made here. Each function
//! of [`Evaluate`] takes what the outside has just delivered and says what
//! is to be done next, as an [`Action`]; whoever runs the evaluator performs
//! the action and comes back with its outcome.

use vstd::prelude::*;
use crate::ast::{
    Command, MatchAction, MatchCase, MatchStatement, PipeStatement, PipeSubject, Program, Prompt,
    PromptCall, PromptView, Statement,
};
use crate::chat::{
    lemma_messages_view, ChatCommand, ChatCommandView, ChatMessage, ChatMessageView, ChatRole,
};
use crate::completion::{CompletionOptions, CompletionOptionsView};
use crate::pattern::{captures, regex_captures, Group, GroupView};
use crate::text::{
    chars_of, decimal, decimal_of, find_char, position_of, same_text, slice_of, to_string, trim,
    trim_start, trimmed, trimmed_start,
};

verus! {

/// Where and how a program is evaluated.
#[derive(Clone, Debug, PartialEq, Eq)]
pub struct EvaluateConfig {
    pub api_key: String,
    /// The file that holds the program.
    pub prompt_path: String,
    /// The directory of that file; commands run there.
    pub prompt_dir: String,
    /// Keep the output of commands to oneself.
    pub quiet: bool,
}

/// What the variables `$AI` and `$USER` hold.
#[derive(Clone, Debug, PartialEq, Eq)]
pub struct EvaluateVars {
    pub ai: String,
    pub user: String,
}

/// The state of one invocation of a prompt.
#[derive(Clone, Debug, PartialEq, Eq)]
pub struct EvaluateState {
    pub current_prompt_name: String,
    pub vars: EvaluateVars,
}

pub struct EvaluateStateView {
    pub current_prompt_name: Seq<char>,
    pub ai: Seq<char>,
    pub user: Seq<char>,
}

impl View for EvaluateState {
    type V = EvaluateStateView;

    open spec fn view(&self) -> EvaluateStateView {
        EvaluateStateView {
            current_prompt_name: self.current_prompt_name@,
            ai: self.vars.ai@,
            user: self.vars.user@,
        }
    }
}

impl Default for EvaluateVars {
    fn default() -> (r: EvaluateVars)
        ensures
            r.ai@ == Seq::<char>::empty(),
            r.user@ == Seq::<char>::empty(),
    {
        EvaluateVars { ai: String::new(), user: String::new() }
    }
}

impl Default for EvaluateState {
    fn default() -> (r: EvaluateState)
        ensures
            r@ == (EvaluateStateView {
                current_prompt_name: Seq::empty(),
                ai: Seq::empty(),
                user: Seq::empty(),
            }),
    {
        EvaluateState { current_prompt_name: String::new(), vars: EvaluateVars::default() }
    }
}

/// Why an invocation ended before its statements were done.
#[derive(Clone, Debug, PartialEq, Eq)]
pub enum EvaluateError {
    /// A command wrote to its standard error; this is what it wrote.
    Command(String),
    /// A call names a prompt that the program does not have.
    MissingPrompt(String),
    /// A statement reads a variable other than `AI` and `USER`.
    UndeclaredVariable(String),
    /// A branch of a fan-out did not run to its end.
    JoinError(String),
    /// The exchange returned no message: the session was ended.
    CommandExited,
}

pub enum EvaluateErrorView {
    Command(Seq<char>),
    MissingPrompt(Seq<char>),
    UndeclaredVariable(Seq<char>),
    JoinError(Seq<char>),
    CommandExited,
}

impl View for EvaluateError {
    type V = EvaluateErrorView;

    open spec fn view(&self) -> EvaluateErrorView {
        match self {
            EvaluateError::Command(s) => EvaluateErrorView::Command(s@),
            EvaluateError::MissingPrompt(s) => EvaluateErrorView::MissingPrompt(s@),
            EvaluateError::UndeclaredVariable(s) => EvaluateErrorView::UndeclaredVariable(s@),
            EvaluateError::JoinError(s) => EvaluateErrorView::JoinError(s@),
            EvaluateError::CommandExited => EvaluateErrorView::CommandExited,
        }
    }
}

impl DeepView for EvaluateError {
    type V = EvaluateErrorView;

    open spec fn deep_view(&self) -> EvaluateErrorView {
        self.view()
    }
}

/// A message's content without the label that it starts with: what follows
/// the first colon, without the whitespace at its start. Content without a
/// colon has no label.
pub open spec fn unlabelled(content: Seq<char>) -> Seq<char> {
    let colon = position_of(content, 0, ':');
    if 0 <= colon < content.len() {
        trim_start(content.subrange(colon + 1, content.len() as int))
    } else {
        content
    }
}

/// The index of the last of the first `n` messages that `role` said.
pub open spec fn latest(messages: Seq<ChatMessageView>, role: ChatRole, n: int) -> Option<int>
    decreases n,
{
    if n <= 0 || n > messages.len() {
        None
    } else if messages[n - 1].role == role {
        Some(n - 1)
    } else {
        latest(messages, role, n - 1)
    }
}

/// What `role` said last, without its label; empty if it said nothing.
pub open spec fn latest_text(messages: Seq<ChatMessageView>, role: ChatRole) -> Seq<char> {
    match latest(messages, role, messages.len() as int) {
        Some(i) => unlabelled(messages[i].content),
        None => Seq::empty(),
    }
}

/// The state that an exchange leaves: `AI` and `USER` hold what each said
/// last. An exchange without messages ends the invocation.
pub open spec fn extracted(name: Seq<char>, messages: Seq<ChatMessageView>) -> Result<
    EvaluateStateView,
    EvaluateErrorView,
> {
    if messages.len() == 0 {
        Err(EvaluateErrorView::CommandExited)
    } else {
        Ok(
            EvaluateStateView {
                current_prompt_name: name,
                ai: latest_text(messages, ChatRole::Ai),
                user: latest_text(messages, ChatRole::User),
            },
        )
    }
}

/// What the variable `name` holds: only `AI` and `USER` hold anything.
pub open spec fn variable_text(state: EvaluateStateView, name: Seq<char>) -> Result<
    Seq<char>,
    EvaluateErrorView,
> {
    if name == "AI"@ {
        Ok(state.ai)
    } else if name == "USER"@ {
        Ok(state.user)
    } else {
        Err(EvaluateErrorView::UndeclaredVariable(name))
    }
}

/// What a result with a text stands for.
pub open spec fn text_result_view(r: Result<String, EvaluateError>) -> Result<
    Seq<char>,
    EvaluateErrorView,
> {
    match r {
        Ok(s) => Ok(s@),
        Err(e) => Err(e@),
    }
}

fn strip_label(content: &str) -> (r: String)
    ensures
        r@ == unlabelled(content@),
{
    let chars = chars_of(content);
    let colon = find_char(&chars, 0, ':');
    if colon < chars.len() {
        let rest = slice_of(&chars, colon + 1, chars.len());
        to_string(&trimmed_start(&rest))
    } else {
        to_string(&chars)
    }
}

fn last_said(messages: &Vec<ChatMessage>, role: ChatRole) -> (r: String)
    ensures
        r@ == latest_text(messages.deep_view(), role),
{
    proof {
        lemma_messages_view(*messages);
    }
    let mut n: usize = messages.len();
    while n > 0
        invariant
            n <= messages.len(),
            messages.deep_view().len() == messages.len(),
            forall|i: int|
                0 <= i < messages.len() ==> #[trigger] messages.deep_view()[i] == messages@[i]@,
            latest(messages.deep_view(), role, messages.len() as int) == latest(
                messages.deep_view(),
                role,
                n as int,
            ),
        decreases n,
    {
        if messages[n - 1].role == role {
            return strip_label(messages[n - 1].content.as_str());
        }
        n -= 1;
    }
    String::new()
}

/// What a result with a state stands for.
pub open spec fn state_result_view(r: Result<EvaluateState, EvaluateError>) -> Result<
    EvaluateStateView,
    EvaluateErrorView,
> {
    match r {
        Ok(s) => Ok(s@),
        Err(e) => Err(e@),
    }
}

/// The state of the invocation of prompt `name` after the chat service has
/// returned `messages`.
pub fn extract_state(name: &str, messages: &Vec<ChatMessage>) -> (r: Result<
    EvaluateState,
    EvaluateError,
>)
    ensures
        state_result_view(r) == extracted(name@, messages.deep_view()),
{
    if messages.len() == 0 {
        return Err(EvaluateError::CommandExited);
    }
    let ai = last_said(messages, ChatRole::Ai);
    let user = last_said(messages, ChatRole::User);
    Ok(EvaluateState { current_prompt_name: name.to_owned(), vars: EvaluateVars { ai, user } })
}

/// What the variable `name` holds in `state`.
pub fn resolve_variable(state: &EvaluateState, name: &str) -> (r: Result<String, EvaluateError>)
    ensures
        text_result_view(r) == variable_text(state@, name@),
{
    if same_text(name, "AI") {
        Ok(state.vars.ai.clone())
    } else if same_text(name, "USER") {
        Ok(state.vars.user.clone())
    } else {
        Err(EvaluateError::UndeclaredVariable(name.to_owned()))
    }
}

/// The index of the first case at or after `i` whose regex matches `text`.
pub open spec fn first_match(cases: Seq<MatchCase>, text: Seq<char>, i: int) -> Option<int>
    decreases cases.len() - i,
{
    if !(0 <= i < cases.len()) {
        None
    } else if regex_captures(cases[i].regex, text) is Some {
        Some(i)
    } else {
        first_match(cases, text, i + 1)
    }
}

/// The first case that matches wins: the case that is taken matches, and
/// none of the cases written before it does. Where no case is taken, none
/// matches.
pub proof fn lemma_first_match_wins(cases: Seq<MatchCase>, text: Seq<char>, i: int)
    requires
        0 <= i <= cases.len(),
    ensures
        match first_match(cases, text, i) {
            Some(k) => {
                &&& i <= k < cases.len()
                &&& regex_captures(cases[k].regex, text) is Some
                &&& forall|j: int| i <= j < k ==> regex_captures(cases[j].regex, text) is None
            },
            None => forall|j: int| i <= j < cases.len() ==> regex_captures(cases[j].regex, text) is None,
        },
    decreases cases.len() - i,
{
    if i < cases.len() && regex_captures(cases[i].regex, text) is None {
        lemma_first_match_wins(cases, text, i + 1);
    }
}

/// Finds the case that applies to `text`: the first, in the order in which
/// the cases are written, whose regex matches. Returns its index and the
/// groups of the match.
pub fn find_case(cases: &Vec<MatchCase>, text: &str) -> (r: Option<(usize, Vec<Group>)>)
    ensures
        match r {
            Some((i, groups)) => {
                &&& first_match(cases@, text@, 0) == Some(i as int)
                &&& i < cases.len()
                &&& regex_captures(cases@[i as int].regex, text@) == Some(groups.deep_view())
                &&& forall|j: int| 0 <= j < i ==> regex_captures(cases@[j].regex, text@) is None
            },
            None => {
                &&& first_match(cases@, text@, 0) is None
                &&& forall|j: int| 0 <= j < cases.len() ==> regex_captures(cases@[j].regex, text@) is None
            },
        },
{
    let mut i: usize = 0;
    while i < cases.len()
        invariant
            i <= cases.len(),
            first_match(cases@, text@, 0) == first_match(cases@, text@, i as int),
            forall|j: int| 0 <= j < i ==> regex_captures(cases@[j].regex, text@) is None,
        decreases cases.len() - i,
    {
        match captures(&cases[i].regex, text) {
            Some(groups) => {
                return Some((i, groups));
            },
            None => {},
        }
        i += 1;
    }
    None
}

/// The text that group `i` of a match holds; empty if the match has no such
/// group or the group took no part in it.
pub open spec fn group_text(groups: Seq<GroupView>, i: int) -> Seq<char> {
    if 0 <= i < groups.len() && groups[i].text is Some {
        groups[i].text->0
    } else {
        Seq::empty()
    }
}

/// The name of the variable that holds group `i` of a match: `M` and the
/// group's number.
pub open spec fn group_variable(i: nat) -> Seq<char> {
    seq!['M'] + decimal(i)
}

/// The variables that one group of a match sets: none if the group took no
/// part in the match, else `M` and its number, and its own name if it has
/// one.
pub open spec fn variables_of_group(group: GroupView, i: nat) -> Seq<(Seq<char>, Seq<char>)> {
    match group.text {
        None => Seq::empty(),
        Some(text) => match group.name {
            None => seq![(group_variable(i), text)],
            Some(name) => seq![(group_variable(i), text), (name, text)],
        },
    }
}

/// The variables that the groups from `i` on set, in the order of the
/// groups.
pub open spec fn group_variables(groups: Seq<GroupView>, i: int) -> Seq<(Seq<char>, Seq<char>)>
    decreases groups.len() - i,
{
    if !(0 <= i < groups.len()) {
        Seq::empty()
    } else {
        variables_of_group(groups[i], i as nat) + group_variables(groups, i + 1)
    }
}

/// The environment that a command runs in: `AI` and `USER`, and for a
/// command that a match set off, the variables of the match's groups. Every
/// group is passed on in one way: as an environment variable.
pub open spec fn environment(state: EvaluateStateView, groups: Option<Seq<GroupView>>) -> Seq<
    (Seq<char>, Seq<char>),
> {
    seq![("AI"@, state.ai), ("USER"@, state.user)] + match groups {
        Some(g) => group_variables(g, 0),
        None => Seq::empty(),
    }
}

/// A command for the shell, with what it is to find around it.
#[derive(Clone, Debug, PartialEq, Eq)]
pub struct ShellCommand {
    /// The text that is handed to the shell.
    pub command: String,
    /// The variables to set, as names and values.
    pub env: Vec<(String, String)>,
    /// The directory to run in.
    pub dir: String,
}

pub struct ShellCommandView {
    pub command: Seq<char>,
    pub env: Seq<(Seq<char>, Seq<char>)>,
    pub dir: Seq<char>,
}

impl View for ShellCommand {
    type V = ShellCommandView;

    open spec fn view(&self) -> ShellCommandView {
        ShellCommandView { command: self.command@, env: self.env.deep_view(), dir: self.dir@ }
    }
}

/// The command `command` as it is run for `state` in directory `dir`.
pub open spec fn shell(
    dir: Seq<char>,
    state: EvaluateStateView,
    command: Seq<char>,
    groups: Option<Seq<GroupView>>,
) -> ShellCommandView {
    ShellCommandView { command, env: environment(state, groups), dir }
}

impl ShellCommand {
    /// The shell and the arguments that run the command: `cmd /C` on
    /// Windows, `sh -c` elsewhere.
    pub fn invocation(&self, windows: bool) -> (r: (String, Vec<String>))
        ensures
            r.0@ == if windows {
                "cmd"@
            } else {
                "sh"@
            },
            r.1.deep_view() == seq![
                if windows {
                    "/C"@
                } else {
                    "-c"@
                },
                self.command@,
            ],
    {
        let mut args: Vec<String> = Vec::new();
        if windows {
            args.push("/C".to_owned());
        } else {
            args.push("-c".to_owned());
        }
        args.push(self.command.clone());
        assert(args.deep_view() =~= seq![
            if windows {
                "/C"@
            } else {
                "-c"@
            },
            self.command@,
        ]);
        if windows {
            ("cmd".to_owned(), args)
        } else {
            ("sh".to_owned(), args)
        }
    }
}

fn push_group_variables(env: &mut Vec<(String, String)>, groups: &Vec<Group>)
    ensures
        final(env).deep_view() == old(env).deep_view() + group_variables(groups.deep_view(), 0),
{
    let ghost start = env.deep_view();
    let ghost gs = groups.deep_view();
    let mut i: usize = 0;
    while i < groups.len()
        invariant
            i <= groups.len(),
            gs == groups.deep_view(),
            gs.len() == groups.len(),
            start + group_variables(gs, 0) == env.deep_view() + group_variables(gs, i as int),
        decreases groups.len() - i,
    {
        let ghost before = env.deep_view();
        let ghost rest = group_variables(gs, i + 1);
        let group = &groups[i];
        assert(gs[i as int] == group@);
        match &group.text {
            None => {
                assert(before + (Seq::<(Seq<char>, Seq<char>)>::empty() + rest) =~= before + rest);
            },
            Some(text) => {
                let mut name: Vec<char> = Vec::new();
                name.push('M');
                let mut digits = decimal_of(i);
                let ghost d = digits@;
                name.append(&mut digits);
                assert(name@ =~= group_variable(i as nat));
                env.push((to_string(&name), text.clone()));
                assert(env.deep_view() =~= before.push((group_variable(i as nat), text@)));
                match &group.name {
                    None => {
                        assert(before + (seq![(group_variable(i as nat), text@)] + rest)
                            =~= before.push((group_variable(i as nat), text@)) + rest);
                    },
                    Some(own) => {
                        let ghost middle = env.deep_view();
                        env.push((own.clone(), text.clone()));
                        assert(env.deep_view() =~= middle.push((own@, text@)));
                        assert(before + (seq![(group_variable(i as nat), text@), (own@, text@)]
                            + rest) =~= before.push((group_variable(i as nat), text@)).push(
                            (own@, text@),
                        ) + rest);
                    },
                }
            },
        }
        i += 1;
    }
    assert(env.deep_view() + Seq::<(Seq<char>, Seq<char>)>::empty() =~= env.deep_view());
}

/// What an optional list of groups stands for.
pub open spec fn groups_view(groups: Option<&Vec<Group>>) -> Option<Seq<GroupView>> {
    match groups {
        Some(g) => Some(g.deep_view()),
        None => None,
    }
}

/// Makes the command `command` ready to run: in the program's directory,
/// with `AI` and `USER` set, and with the groups of the match that set it
/// off, if one did.
pub fn shell_command(
    config: &EvaluateConfig,
    state: &EvaluateState,
    command: &Command,
    groups: Option<&Vec<Group>>,
) -> (r: ShellCommand)
    ensures
        r@ == shell(config.prompt_dir@, state@, command@, groups_view(groups)),
{
    let mut env: Vec<(String, String)> = Vec::new();
    env.push(("AI".to_owned(), state.vars.ai.clone()));
    env.push(("USER".to_owned(), state.vars.user.clone()));
    assert(env.deep_view() =~= seq![("AI"@, state@.ai), ("USER"@, state@.user)]);
    match groups {
        Some(g) => {
            push_group_variables(&mut env, g);
        },
        None => {
            assert(env.deep_view() + Seq::<(Seq<char>, Seq<char>)>::empty() =~= env.deep_view());
        },
    }
    ShellCommand { command: command.0.clone(), env, dir: config.prompt_dir.clone() }
}

/// What a command that has run amounts to: anything on its standard error
/// is a failure, whatever its exit code; else its result is its standard
/// output. Both are trimmed.
pub open spec fn command_outcome(stdout: Seq<char>, stderr: Seq<char>) -> Result<
    Seq<char>,
    EvaluateErrorView,
> {
    if trim(stderr).len() > 0 {
        Err(EvaluateErrorView::Command(trim(stderr)))
    } else {
        Ok(trim(stdout))
    }
}

/// Judges a command by what it wrote.
pub fn evaluate_command(stdout: &str, stderr: &str) -> (r: Result<String, EvaluateError>)
    ensures
        text_result_view(r) == command_outcome(stdout@, stderr@),
{
    let err = trimmed(&chars_of(stderr));
    if err.len() > 0 {
        Err(EvaluateError::Command(to_string(&err)))
    } else {
        Ok(to_string(&trimmed(&chars_of(stdout))))
    }
}

/// What is done with the output of a command.
#[derive(Clone, Debug, PartialEq)]
pub enum AfterRun {
    /// It is shown, unless the run is quiet.
    Print,
    /// It is handed to the prompts of a call.
    Pipe(PromptCall),
}

pub enum AfterRunView {
    Print,
    Pipe(Seq<Seq<char>>),
}

impl View for AfterRun {
    type V = AfterRunView;

    open spec fn view(&self) -> AfterRunView {
        match self {
            AfterRun::Print => AfterRunView::Print,
            AfterRun::Pipe(call) => AfterRunView::Pipe(call@),
        }
    }
}

/// What a statement asks for.
#[derive(Clone, Debug, PartialEq)]
pub enum Step {
    /// Nothing: a match statement none of whose cases applies.
    Nothing,
    /// Run a command, and then deal with its output.
    Run { shell: ShellCommand, then: AfterRun },
    /// Invoke the prompts of a call, each with `append` as its input.
    Call { call: PromptCall, append: String },
}

pub enum StepView {
    Nothing,
    Run { shell: ShellCommandView, then: AfterRunView },
    Call { call: Seq<Seq<char>>, append: Seq<char> },
}

impl View for Step {
    type V = StepView;

    open spec fn view(&self) -> StepView {
        match self {
            Step::Nothing => StepView::Nothing,
            Step::Run { shell, then } => StepView::Run { shell: shell@, then: then@ },
            Step::Call { call, append } => StepView::Call { call: call@, append: append@ },
        }
    }
}

/// What a result with a step stands for.
pub open spec fn step_result_view(r: Result<Step, EvaluateError>) -> Result<
    StepView,
    EvaluateErrorView,
> {
    match r {
        Ok(s) => Ok(s@),
        Err(e) => Err(e@),
    }
}

/// What a pipe statement asks for. A command as subject is run and its
/// output piped to the call; a variable as subject is read and its text
/// handed to the call as it is.
pub open spec fn pipe_step(
    dir: Seq<char>,
    state: EvaluateStateView,
    pipe: crate::ast::PipeStatementView,
    groups: Option<Seq<GroupView>>,
) -> Result<StepView, EvaluateErrorView> {
    match pipe.subject {
        crate::ast::PipeSubjectView::Command(c) => Ok(
            StepView::Run { shell: shell(dir, state, c, groups), then: AfterRunView::Pipe(pipe.call) },
        ),
        crate::ast::PipeSubjectView::Variable(v) => match variable_text(state, v) {
            Ok(text) => Ok(StepView::Call { call: pipe.call, append: text }),
            Err(e) => Err(e),
        },
    }
}

/// What the action of a match case asks for, given the groups of the match.
/// A prompt call hands on the text of group 1.
pub open spec fn action_step(
    dir: Seq<char>,
    state: EvaluateStateView,
    action: crate::ast::MatchActionView,
    groups: Seq<GroupView>,
) -> Result<StepView, EvaluateErrorView> {
    match action {
        crate::ast::MatchActionView::Pipe(p) => pipe_step(dir, state, p, Some(groups)),
        crate::ast::MatchActionView::Command(c) => Ok(
            StepView::Run { shell: shell(dir, state, c, Some(groups)), then: AfterRunView::Print },
        ),
        crate::ast::MatchActionView::PromptCall(call) => Ok(
            StepView::Call { call, append: group_text(groups, 1) },
        ),
    }
}

/// What a match statement asks for: the action of the first case whose
/// regex matches the variable's text, and nothing if there is none.
pub open spec fn match_step(dir: Seq<char>, state: EvaluateStateView, m: MatchStatement) -> Result<
    StepView,
    EvaluateErrorView,
> {
    match variable_text(state, m.variable@) {
        Err(e) => Err(e),
        Ok(text) => match first_match(m.cases@, text, 0) {
            None => Ok(StepView::Nothing),
            Some(i) => action_step(
                dir,
                state,
                m.cases@[i].action@,
                regex_captures(m.cases@[i].regex, text)->0,
            ),
        },
    }
}

/// What a statement asks for.
pub open spec fn plan(dir: Seq<char>, state: EvaluateStateView, statement: Statement) -> Result<
    StepView,
    EvaluateErrorView,
> {
    match statement {
        Statement::MatchStatement(m) => match_step(dir, state, m),
        Statement::PipeStatement(p) => pipe_step(dir, state, p@, None),
        Statement::Command(c) => Ok(
            StepView::Run { shell: shell(dir, state, c@, None), then: AfterRunView::Print },
        ),
    }
}

/// Decides what a pipe statement asks for.
pub fn evaluate_pipe_statement(
    config: &EvaluateConfig,
    state: &EvaluateState,
    statement: &PipeStatement,
    groups: Option<&Vec<Group>>,
) -> (r: Result<Step, EvaluateError>)
    ensures
        step_result_view(r) == pipe_step(config.prompt_dir@, state@, statement@, groups_view(groups)),
{
    match &statement.subject {
        PipeSubject::Command(command) => Ok(
            Step::Run {
                shell: shell_command(config, state, command, groups),
                then: AfterRun::Pipe(statement.call.copy()),
            },
        ),
        PipeSubject::Variable(variable) => match resolve_variable(state, variable.0.as_str()) {
            Ok(text) => Ok(Step::Call { call: statement.call.copy(), append: text }),
            Err(e) => Err(e),
        },
    }
}

/// Decides what the action of a match case asks for.
pub fn evaluate_match_action(
    config: &EvaluateConfig,
    state: &EvaluateState,
    action: &MatchAction,
    groups: &Vec<Group>,
) -> (r: Result<Step, EvaluateError>)
    ensures
        step_result_view(r) == action_step(config.prompt_dir@, state@, action@, groups.deep_view()),
{
    match action {
        MatchAction::Pipe(pipe) => evaluate_pipe_statement(config, state, pipe, Some(groups)),
        MatchAction::Command(command) => Ok(
            Step::Run {
                shell: shell_command(config, state, command, Some(groups)),
                then: AfterRun::Print,
            },
        ),
        MatchAction::PromptCall(call) => {
            let append = if groups.len() > 1 {
                match &groups[1].text {
                    Some(text) => text.clone(),
                    None => String::new(),
                }
            } else {
                String::new()
            };
            assert(groups.len() > 1 ==> groups.deep_view()[1] == groups@[1]@);
            Ok(Step::Call { call: call.copy(), append })
        },
    }
}

/// Decides what a match statement asks for.
pub fn evaluate_match_statement(
    config: &EvaluateConfig,
    state: &EvaluateState,
    statement: &MatchStatement,
) -> (r: Result<Step, EvaluateError>)
    ensures
        step_result_view(r) == match_step(config.prompt_dir@, state@, *statement),
{
    let text = match resolve_variable(state, statement.variable.0.as_str()) {
        Ok(text) => text,
        Err(e) => { return Err(e); },
    };
    match find_case(&statement.cases, text.as_str()) {
        None => Ok(Step::Nothing),
        Some((i, groups)) => evaluate_match_action(config, state, &statement.cases[i].action, &groups),
    }
}

/// Decides what a statement asks for.
pub fn evaluate_statement(config: &EvaluateConfig, state: &EvaluateState, statement: &Statement) -> (r:
    Result<Step, EvaluateError>)
    ensures
        step_result_view(r) == plan(config.prompt_dir@, state@, *statement),
{
    match statement {
        Statement::MatchStatement(m) => evaluate_match_statement(config, state, m),
        Statement::PipeStatement(p) => evaluate_pipe_statement(config, state, p, None),
        Statement::Command(c) => Ok(
            Step::Run { shell: shell_command(config, state, c, None), then: AfterRun::Print },
        ),
    }
}

/// The opposite of a flag that was given.
pub open spec fn inverted(flag: Option<bool>) -> Option<bool> {
    match flag {
        Some(b) => Some(!b),
        None => None,
    }
}

/// The request that an invocation of `prompt` sends to the chat service:
/// one exchange in the session named after the prompt, quiet and not
/// streamed, with the prompt's description as system text.
pub open spec fn request(
    prompt: PromptView,
    responds_first: Option<bool>,
    append: Option<Seq<char>>,
    sender: Option<Seq<char>>,
) -> ChatCommandView {
    ChatCommandView {
        completion: CompletionOptionsView {
            ai_responds_first: responds_first,
            append,
            name: Some(prompt.name),
            no_context: inverted(prompt.options.history),
            once: Some(true),
            overwrite: None,
            quiet: Some(true),
            prefix_ai: Some(prompt.name),
            prefix_user: sender,
            response_count: None,
            stream: Some(false),
            tokens_max: None,
        },
        system: prompt.options.description,
        direction: prompt.options.direction,
        provider: None,
    }
}

/// The request of the main prompt: the model answers first if the prompt is
/// eager.
pub open spec fn main_request(prompt: PromptView) -> ChatCommandView {
    request(prompt, prompt.options.eager, None, None)
}

/// The request of a prompt that a call invokes: `append` is its input, and
/// the calling prompt is named as the sender.
pub open spec fn call_request(prompt: PromptView, append: Seq<char>, sender: Seq<char>) -> ChatCommandView {
    request(prompt, Some(false), Some(append), Some(sender))
}

fn copy_text(text: &Option<String>) -> (r: Option<String>)
    ensures
        r.deep_view() == text.deep_view(),
{
    match text {
        Some(s) => Some(s.clone()),
        None => None,
    }
}

fn make_request(
    prompt: &Prompt,
    responds_first: Option<bool>,
    append: Option<String>,
    sender: Option<String>,
) -> (r: ChatCommand)
    ensures
        r@ == request(prompt@, responds_first, append.deep_view(), sender.deep_view()),
{
    let no_context = match prompt.options.history {
        Some(h) => Some(!h),
        None => None,
    };
    ChatCommand {
        completion: CompletionOptions {
            ai_responds_first: responds_first,
            append,
            name: Some(prompt.name.clone()),
            no_context,
            once: Some(true),
            overwrite: None,
            quiet: Some(true),
            prefix_ai: Some(prompt.name.clone()),
            prefix_user: sender,
            response_count: None,
            stream: Some(false),
            tokens_max: None,
        },
        system: copy_text(&prompt.options.description),
        direction: copy_text(&prompt.options.direction),
        provider: None,
    }
}

/// The index of the first prompt at or after `i` that is called `name`.
pub open spec fn prompt_index(prompts: Seq<PromptView>, name: Seq<char>, i: int) -> Option<int>
    decreases prompts.len() - i,
{
    if !(0 <= i < prompts.len()) {
        None
    } else if prompts[i].name == name {
        Some(i)
    } else {
        prompt_index(prompts, name, i + 1)
    }
}

/// The index of the first prompt at or after `i` that is flagged as main.
pub open spec fn main_index(prompts: Seq<PromptView>, i: int) -> Option<int>
    decreases prompts.len() - i,
{
    if !(0 <= i < prompts.len()) {
        None
    } else if prompts[i].is_main {
        Some(i)
    } else {
        main_index(prompts, i + 1)
    }
}

/// One invocation to start: the prompt, by its index in the program, and
/// the request to send for it.
#[derive(Clone, Debug, PartialEq, Eq)]
pub struct Spawn {
    pub prompt: usize,
    pub request: ChatCommand,
}

pub struct SpawnView {
    pub prompt: usize,
    pub request: ChatCommandView,
}

impl View for Spawn {
    type V = SpawnView;

    open spec fn view(&self) -> SpawnView {
        SpawnView { prompt: self.prompt, request: self.request@ }
    }
}

impl DeepView for Spawn {
    type V = SpawnView;

    open spec fn deep_view(&self) -> SpawnView {
        self.view()
    }
}

/// The invocations that a call to the prompts `names[k..]` starts, one for
/// each name and in their order, or the first name that no prompt has.
pub open spec fn spawns(
    prompts: Seq<PromptView>,
    sender: Seq<char>,
    names: Seq<Seq<char>>,
    append: Seq<char>,
    k: int,
) -> Result<Seq<SpawnView>, EvaluateErrorView>
    decreases names.len() - k,
{
    if !(0 <= k < names.len()) {
        Ok(Seq::empty())
    } else {
        match prompt_index(prompts, names[k], 0) {
            None => Err(EvaluateErrorView::MissingPrompt(names[k])),
            Some(i) => match spawns(prompts, sender, names, append, k + 1) {
                Err(e) => Err(e),
                Ok(rest) => Ok(
                    seq![
                        SpawnView {
                            prompt: i as usize,
                            request: call_request(prompts[i], append, sender),
                        },
                    ] + rest,
                ),
            },
        }
    }
}

proof fn lemma_prompt_index(prompts: Seq<PromptView>, name: Seq<char>, i: int)
    requires
        0 <= i <= prompts.len(),
    ensures
        match prompt_index(prompts, name, i) {
            Some(k) => i <= k < prompts.len() && prompts[k].name == name,
            None => forall|k: int| i <= k < prompts.len() ==> prompts[k].name != name,
        },
    decreases prompts.len() - i,
{
    if i < prompts.len() && prompts[i].name != name {
        lemma_prompt_index(prompts, name, i + 1);
    }
}

/// A call that succeeds invokes every prompt it names: one invocation for
/// each name, in the order of the names, each of the prompt of that name and
/// with the request of a call. A call fails only where it names a prompt
/// that the program does not have.
pub proof fn lemma_call_invokes_every_name(
    prompts: Seq<PromptView>,
    sender: Seq<char>,
    names: Seq<Seq<char>>,
    append: Seq<char>,
    k: int,
)
    requires
        0 <= k <= names.len(),
        prompts.len() <= usize::MAX,
    ensures
        match spawns(prompts, sender, names, append, k) {
            Ok(calls) => {
                &&& calls.len() == names.len() - k
                &&& forall|j: int|
                    0 <= j < calls.len() ==> {
                        &&& (#[trigger] calls[j]).prompt < prompts.len()
                        &&& prompts[calls[j].prompt as int].name == names[k + j]
                        &&& calls[j].request == call_request(
                            prompts[calls[j].prompt as int],
                            append,
                            sender,
                        )
                    }
            },
            Err(e) => exists|j: int|
                k <= j < names.len() && prompt_index(prompts, #[trigger] names[j], 0) is None
                    && e == EvaluateErrorView::MissingPrompt(names[j]),
        },
    decreases names.len() - k,
{
    if k < names.len() {
        lemma_prompt_index(prompts, names[k], 0);
        lemma_call_invokes_every_name(prompts, sender, names, append, k + 1);
        match prompt_index(prompts, names[k], 0) {
            None => {
                assert(prompt_index(prompts, names[k], 0) is None);
            },
            Some(i) => match spawns(prompts, sender, names, append, k + 1) {
                Err(e) => {
                    let j = choose|j: int|
                        k + 1 <= j < names.len() && prompt_index(prompts, #[trigger] names[j], 0)
                            is None && e == EvaluateErrorView::MissingPrompt(names[j]);
                    assert(k <= j < names.len() && prompt_index(prompts, names[j], 0) is None);
                },
                Ok(rest) => {
                    let calls = spawns(prompts, sender, names, append, k)->Ok_0;
                    assert forall|j: int| 0 <= j < calls.len() implies {
                        &&& (#[trigger] calls[j]).prompt < prompts.len()
                        &&& prompts[calls[j].prompt as int].name == names[k + j]
                        &&& calls[j].request == call_request(
                            prompts[calls[j].prompt as int],
                            append,
                            sender,
                        )
                    } by {
                        if j > 0 {
                            assert(calls[j] == rest[j - 1]);
                        }
                    }
                },
            },
        }
    }
}

/// How one branch of a fan-out ended.
#[derive(Clone, Debug, PartialEq, Eq)]
pub enum Branch {
    /// It ran its statements to the end.
    Done,
    /// It ended with an error.
    Failed(EvaluateError),
    /// It did not run to its end; the text says what happened.
    Panicked(String),
}

pub enum BranchView {
    Done,
    Failed(EvaluateErrorView),
    Panicked(Seq<char>),
}

impl View for Branch {
    type V = BranchView;

    open spec fn view(&self) -> BranchView {
        match self {
            Branch::Done => BranchView::Done,
            Branch::Failed(e) => BranchView::Failed(e@),
            Branch::Panicked(m) => BranchView::Panicked(m@),
        }
    }
}

impl DeepView for Branch {
    type V = BranchView;

    open spec fn deep_view(&self) -> BranchView {
        self.view()
    }
}

/// The index of the first branch at or after `i` that did not run to its
/// end.
pub open spec fn first_panicked(branches: Seq<BranchView>, i: int) -> Option<int>
    decreases branches.len() - i,
{
    if !(0 <= i < branches.len()) {
        None
    } else if branches[i] is Panicked {
        Some(i)
    } else {
        first_panicked(branches, i + 1)
    }
}

/// The index of the first branch at or after `i` that ended with an error.
pub open spec fn first_failed(branches: Seq<BranchView>, i: int) -> Option<int>
    decreases branches.len() - i,
{
    if !(0 <= i < branches.len()) {
        None
    } else if branches[i] is Failed {
        Some(i)
    } else {
        first_failed(branches, i + 1)
    }
}

/// The outcome of a fan-out whose branches have all been awaited: the first
/// branch that did not run to its end decides; if there is none, the first
/// that ended with an error; if there is none either, the fan-out succeeded.
pub open spec fn joined(branches: Seq<BranchView>) -> Result<(), EvaluateErrorView> {
    match first_panicked(branches, 0) {
        Some(i) => Err(EvaluateErrorView::JoinError(branches[i]->Panicked_0)),
        None => match first_failed(branches, 0) {
            Some(i) => Err(branches[i]->Failed_0),
            None => Ok(()),
        },
    }
}

/// What a result without a value stands for.
pub open spec fn unit_result_view(r: Result<(), EvaluateError>) -> Result<(), EvaluateErrorView> {
    match r {
        Ok(_) => Ok(()),
        Err(e) => Err(e@),
    }
}

proof fn lemma_branches_view(branches: Vec<Branch>)
    ensures
        branches.deep_view().len() == branches.len(),
        forall|i: int| 0 <= i < branches.len() ==> #[trigger] branches.deep_view()[i] == branches@[i]@,
{
}

fn copy_error(error: &EvaluateError) -> (r: EvaluateError)
    ensures
        r@ == error@,
{
    match error {
        EvaluateError::Command(s) => EvaluateError::Command(s.clone()),
        EvaluateError::MissingPrompt(s) => EvaluateError::MissingPrompt(s.clone()),
        EvaluateError::UndeclaredVariable(s) => EvaluateError::UndeclaredVariable(s.clone()),
        EvaluateError::JoinError(s) => EvaluateError::JoinError(s.clone()),
        EvaluateError::CommandExited => EvaluateError::CommandExited,
    }
}

/// Gathers the outcomes of the branches of a fan-out into one.
pub fn join_results(branches: &Vec<Branch>) -> (r: Result<(), EvaluateError>)
    ensures
        unit_result_view(r) == joined(branches.deep_view()),
{
    proof {
        lemma_branches_view(*branches);
    }
    let ghost bs = branches.deep_view();
    let mut i: usize = 0;
    while i < branches.len()
        invariant
            i <= branches.len(),
            bs == branches.deep_view(),
            bs.len() == branches.len(),
            forall|k: int| 0 <= k < branches.len() ==> #[trigger] bs[k] == branches@[k]@,
            first_panicked(bs, 0) == first_panicked(bs, i as int),
        decreases branches.len() - i,
    {
        if let Branch::Panicked(message) = &branches[i] {
            return Err(EvaluateError::JoinError(message.clone()));
        }
        i += 1;
    }
    let mut j: usize = 0;
    while j < branches.len()
        invariant
            j <= branches.len(),
            bs == branches.deep_view(),
            bs.len() == branches.len(),
            forall|k: int| 0 <= k < branches.len() ==> #[trigger] bs[k] == branches@[k]@,
            first_panicked(bs, 0) is None,
            first_failed(bs, 0) == first_failed(bs, j as int),
        decreases branches.len() - j,
    {
        if let Branch::Failed(error) = &branches[j] {
            return Err(copy_error(error));
        }
        j += 1;
    }
    Ok(())
}

/// A fan-out succeeds exactly when every one of its branches ran to its
/// end: one branch that failed makes the whole fail, whatever the others
/// did.
pub proof fn lemma_join_reports_failure(branches: Seq<BranchView>)
    ensures
        joined(branches) is Ok <==> forall|k: int| 0 <= k < branches.len() ==> branches[k] is Done,
{
    lemma_first_panicked(branches, 0);
    lemma_first_failed(branches, 0);
}

proof fn lemma_first_panicked(branches: Seq<BranchView>, i: int)
    requires
        0 <= i <= branches.len(),
    ensures
        match first_panicked(branches, i) {
            Some(k) => i <= k < branches.len() && branches[k] is Panicked,
            None => forall|k: int| i <= k < branches.len() ==> !(branches[k] is Panicked),
        },
    decreases branches.len() - i,
{
    if i < branches.len() && !(branches[i] is Panicked) {
        lemma_first_panicked(branches, i + 1);
    }
}

proof fn lemma_first_failed(branches: Seq<BranchView>, i: int)
    requires
        0 <= i <= branches.len(),
    ensures
        match first_failed(branches, i) {
            Some(k) => i <= k < branches.len() && branches[k] is Failed,
            None => forall|k: int| i <= k < branches.len() ==> !(branches[k] is Failed),
        },
    decreases branches.len() - i,
{
    if i < branches.len() && !(branches[i] is Failed) {
        lemma_first_failed(branches, i + 1);
    }
}

/// Where an invocation goes on once the outside has done its part: with
/// the statement at index `next`, in state `state`.
#[derive(Clone, Debug, PartialEq, Eq)]
pub struct Resume {
    pub state: EvaluateState,
    pub next: usize,
}

pub struct ResumeView {
    pub state: EvaluateStateView,
    pub next: usize,
}

impl View for Resume {
    type V = ResumeView;

    open spec fn view(&self) -> ResumeView {
        ResumeView { state: self.state@, next: self.next }
    }
}

/// What the outside is to do next for an invocation.
#[derive(Debug, PartialEq)]
pub enum Action {
    /// Run `shell`; come back with what it wrote, `then` and `resume`.
    Run { shell: ShellCommand, then: AfterRun, resume: Resume },
    /// Start an invocation for each of `calls`, all at once, and await them
    /// all; come back with how each ended and `resume`.
    Spawn { calls: Vec<Spawn>, resume: Resume },
    /// The invocation is over, with this outcome.
    Finish(Result<(), EvaluateError>),
}

pub enum ActionView {
    Run { shell: ShellCommandView, then: AfterRunView, resume: ResumeView },
    Spawn { calls: Seq<SpawnView>, resume: ResumeView },
    Finish(Result<(), EvaluateErrorView>),
}

impl View for Action {
    type V = ActionView;

    open spec fn view(&self) -> ActionView {
        match self {
            Action::Run { shell, then, resume } => ActionView::Run {
                shell: shell@,
                then: then@,
                resume: resume@,
            },
            Action::Spawn { calls, resume } => ActionView::Spawn {
                calls: calls.deep_view(),
                resume: resume@,
            },
            Action::Finish(r) => ActionView::Finish(unit_result_view(*r)),
        }
    }
}

/// What is to be shown, and what is to be done next.
#[derive(Debug, PartialEq)]
pub struct Decision {
    pub print: Option<String>,
    pub action: Action,
}

pub struct DecisionView {
    pub print: Option<Seq<char>>,
    pub action: ActionView,
}

impl View for Decision {
    type V = DecisionView;

    open spec fn view(&self) -> DecisionView {
        DecisionView { print: self.print.deep_view(), action: self.action@ }
    }
}

/// An evaluator: a program and the configuration it is evaluated under.
#[derive(Clone, Debug, PartialEq)]
pub struct Evaluate {
    pub config: EvaluateConfig,
    pub program: Program,
}

/// What a result with a list of invocations stands for.
pub open spec fn spawns_result_view(r: Result<Vec<Spawn>, EvaluateError>) -> Result<
    Seq<SpawnView>,
    EvaluateErrorView,
> {
    match r {
        Ok(calls) => Ok(calls.deep_view()),
        Err(e) => Err(e@),
    }
}

impl Evaluate {
    /// The action that invokes the prompts of `call` with input `append`,
    /// after which the invocation goes on at `next`.
    pub open spec fn call_action(
        self,
        state: EvaluateStateView,
        next: usize,
        call: Seq<Seq<char>>,
        append: Seq<char>,
    ) -> ActionView {
        match spawns(self.program@, state.current_prompt_name, call, append, 0) {
            Err(e) => ActionView::Finish(Err(e)),
            Ok(calls) => ActionView::Spawn { calls, resume: ResumeView { state, next } },
        }
    }

    /// The next action of an invocation of `prompt` that is about to
    /// execute its statement at index `k`: the statements are taken in
    /// their order; one that asks for nothing is passed over, one that
    /// cannot be executed ends the invocation with its error, and after the
    /// last the invocation is complete.
    pub open spec fn next_action(self, prompt: Prompt, state: EvaluateStateView, k: int) -> ActionView
        decreases prompt.statements.len() - k,
    {
        if !(0 <= k < prompt.statements.len()) {
            ActionView::Finish(Ok(()))
        } else {
            match plan(self.config.prompt_dir@, state, prompt.statements@[k]) {
                Err(e) => ActionView::Finish(Err(e)),
                Ok(StepView::Nothing) => self.next_action(prompt, state, k + 1),
                Ok(StepView::Run { shell, then }) => ActionView::Run {
                    shell,
                    then,
                    resume: ResumeView { state, next: (k + 1) as usize },
                },
                Ok(StepView::Call { call, append }) => self.call_action(
                    state,
                    (k + 1) as usize,
                    call,
                    append,
                ),
            }
        }
    }

    /// The first action of an invocation of `prompt` whose exchange
    /// returned `messages`.
    pub open spec fn first_action(self, prompt: Prompt, messages: Seq<ChatMessageView>) -> ActionView {
        match extracted(prompt.name@, messages) {
            Err(e) => ActionView::Finish(Err(e)),
            Ok(state) => self.next_action(prompt, state, 0),
        }
    }

    /// What follows a command that has run.
    pub open spec fn command_decision(
        self,
        prompt: Prompt,
        resume: ResumeView,
        then: AfterRunView,
        stdout: Seq<char>,
        stderr: Seq<char>,
    ) -> DecisionView {
        match command_outcome(stdout, stderr) {
            Err(e) => DecisionView { print: None, action: ActionView::Finish(Err(e)) },
            Ok(output) => match then {
                AfterRunView::Print => DecisionView {
                    print: if self.config.quiet {
                        None
                    } else {
                        Some(output)
                    },
                    action: self.next_action(prompt, resume.state, resume.next as int),
                },
                AfterRunView::Pipe(call) => DecisionView {
                    print: None,
                    action: self.call_action(resume.state, resume.next, call, output),
                },
            },
        }
    }

    /// What follows a fan-out whose branches have all ended.
    pub open spec fn join_action(self, prompt: Prompt, resume: ResumeView, branches: Seq<BranchView>) -> ActionView {
        match joined(branches) {
            Err(e) => ActionView::Finish(Err(e)),
            Ok(_) => self.next_action(prompt, resume.state, resume.next as int),
        }
    }

    /// The statements of an invocation are executed in the order in which
    /// they are written, and the variables do not change on the way. The
    /// next action comes from the first statement, from index `k` on, that
    /// asks for anything; the statements before it ask for nothing, and the
    /// invocation goes on behind it. Where no statement asks for anything,
    /// the invocation is complete.
    pub proof fn lemma_statements_run_in_order(
        self,
        prompt: Prompt,
        state: EvaluateStateView,
        k: int,
    ) -> (acting: int)
        requires
            0 <= k <= prompt.statements.len() <= usize::MAX,
        ensures
            k <= acting <= prompt.statements.len(),
            forall|j: int|
                k <= j < acting ==> plan(self.config.prompt_dir@, state, prompt.statements@[j])
                    == Ok::<StepView, EvaluateErrorView>(StepView::Nothing),
            acting < prompt.statements.len() ==> plan(
                self.config.prompt_dir@,
                state,
                prompt.statements@[acting],
            ) != Ok::<StepView, EvaluateErrorView>(StepView::Nothing),
            match self.next_action(prompt, state, k) {
                ActionView::Run { shell, then, resume } => {
                    &&& acting < prompt.statements.len()
                    &&& resume == (ResumeView { state, next: (acting + 1) as usize })
                    &&& plan(self.config.prompt_dir@, state, prompt.statements@[acting]) == Ok::<
                        StepView,
                        EvaluateErrorView,
                    >(StepView::Run { shell, then })
                },
                ActionView::Spawn { calls, resume } => {
                    &&& acting < prompt.statements.len()
                    &&& resume == (ResumeView { state, next: (acting + 1) as usize })
                    &&& plan(self.config.prompt_dir@, state, prompt.statements@[acting]) is Ok
                },
                ActionView::Finish(Ok(_)) => acting == prompt.statements.len(),
                ActionView::Finish(Err(_)) => acting < prompt.statements.len(),
            },
        decreases prompt.statements.len() - k,
    {
        if k < prompt.statements.len() {
            match plan(self.config.prompt_dir@, state, prompt.statements@[k]) {
                Ok(StepView::Nothing) => self.lemma_statements_run_in_order(prompt, state, k + 1),
                _ => k,
            }
        } else {
            k
        }
    }

    pub fn new(program: Program, config: EvaluateConfig) -> (r: Evaluate)
        ensures
            r.program == program,
            r.config == config,
    {
        Evaluate { config, program }
    }

    /// Where evaluation starts: the main prompt and the request to send for
    /// it. A program without a main prompt has nothing to evaluate.
    pub fn eval(&self) -> (r: Option<Spawn>)
        ensures
            match r {
                Some(start) => {
                    &&& main_index(self.program@, 0) == Some(start.prompt as int)
                    &&& start.prompt < self.program.prompts.len()
                    &&& start.request@ == main_request(self.program@[start.prompt as int])
                },
                None => main_index(self.program@, 0) is None,
            },
    {
        let prompts = &self.program.prompts;
        let mut i: usize = 0;
        while i < prompts.len()
            invariant
                i <= prompts.len(),
                prompts == &self.program.prompts,
                main_index(self.program@, 0) == main_index(self.program@, i as int),
            decreases prompts.len() - i,
        {
            if prompts[i].is_main {
                let request = make_request(&prompts[i], prompts[i].options.eager, None, None);
                return Some(Spawn { prompt: i, request });
            }
            i += 1;
        }
        None
    }

    fn find_prompt(&self, name: &str) -> (r: Option<usize>)
        ensures
            match r {
                Some(i) => prompt_index(self.program@, name@, 0) == Some(i as int) && i
                    < self.program.prompts.len(),
                None => prompt_index(self.program@, name@, 0) is None,
            },
    {
        let prompts = &self.program.prompts;
        let mut i: usize = 0;
        while i < prompts.len()
            invariant
                i <= prompts.len(),
                prompts == &self.program.prompts,
                prompt_index(self.program@, name@, 0) == prompt_index(self.program@, name@, i as int),
            decreases prompts.len() - i,
        {
            if same_text(prompts[i].name.as_str(), name) {
                return Some(i);
            }
            i += 1;
        }
        None
    }

    /// Resolves a call: finds the prompt of each name and makes the
    /// request that invokes it with `append` as input and the calling
    /// prompt as sender. A name that no prompt has is an error.
    pub fn evaluate_prompt_call(&self, state: &EvaluateState, call: &PromptCall, append: &str) -> (r:
        Result<Vec<Spawn>, EvaluateError>)
        ensures
            spawns_result_view(r) == spawns(
                self.program@,
                state@.current_prompt_name,
                call@,
                append@,
                0,
            ),
            r matches Ok(calls) ==> calls.len() == call.names.len() && forall|k: int|
                0 <= k < calls.len() ==> (#[trigger] calls@[k]).prompt < self.program.prompts.len(),
    {
        let ghost sender = state@.current_prompt_name;
        let ghost names = call@;
        let mut calls: Vec<Spawn> = Vec::new();
        let mut k: usize = 0;
        assert(calls.deep_view() =~= Seq::<SpawnView>::empty());
        while k < call.names.len()
            invariant
                k <= call.names.len(),
                names == call@,
                names.len() == call.names.len(),
                sender == state@.current_prompt_name,
                calls.len() == k,
                forall|j: int|
                    0 <= j < calls.len() ==> (#[trigger] calls@[j]).prompt
                        < self.program.prompts.len(),
                spawns(self.program@, sender, names, append@, 0) == match spawns(
                    self.program@,
                    sender,
                    names,
                    append@,
                    k as int,
                ) {
                    Err(e) => Err::<Seq<SpawnView>, EvaluateErrorView>(e),
                    Ok(rest) => Ok(calls.deep_view() + rest),
                },
            decreases call.names.len() - k,
        {
            let name = &call.names[k];
            assert(names[k as int] == name@);
            match self.find_prompt(name.as_str()) {
                None => {
                    return Err(EvaluateError::MissingPrompt(name.clone()));
                },
                Some(i) => {
                    let request = make_request(
                        &self.program.prompts[i],
                        Some(false),
                        Some(append.to_owned()),
                        Some(state.current_prompt_name.clone()),
                    );
                    let ghost before = calls.deep_view();
                    let spawn = Spawn { prompt: i, request };
                    calls.push(spawn);
                    proof {
                        assert(calls.deep_view() =~= before.push(spawn@));
                        match spawns(self.program@, sender, names, append@, k + 1) {
                            Ok(rest) => {
                                assert(before + (seq![spawn@] + rest) =~= before.push(spawn@)
                                    + rest);
                            },
                            Err(_) => {},
                        }
                    }
                },
            }
            k += 1;
        }
        assert(calls.deep_view() + Seq::<SpawnView>::empty() =~= calls.deep_view());
        Ok(calls)
    }

    fn call(&self, resume: Resume, call: &PromptCall, append: &str) -> (r: Action)
        ensures
            r@ == self.call_action(resume@.state, resume.next, call@, append@),
    {
        match self.evaluate_prompt_call(&resume.state, call, append) {
            Err(e) => Action::Finish(Err(e)),
            Ok(calls) => Action::Spawn { calls, resume },
        }
    }

    /// Goes on with an invocation of `prompt` at the statement that
    /// `resume` names, up to the next thing that the outside has to do.
    pub fn proceed(&self, prompt: &Prompt, resume: Resume) -> (r: Action)
        ensures
            r@ == self.next_action(*prompt, resume@.state, resume.next as int),
    {
        let state = resume.state;
        let mut k: usize = resume.next;
        while k < prompt.statements.len()
            invariant
                self.next_action(*prompt, resume@.state, resume.next as int) == self.next_action(
                    *prompt,
                    state@,
                    k as int,
                ),
                state@ == resume@.state,
            decreases prompt.statements.len() - k,
        {
            match evaluate_statement(&self.config, &state, &prompt.statements[k]) {
                Err(e) => {
                    return Action::Finish(Err(e));
                },
                Ok(Step::Nothing) => {},
                Ok(Step::Run { shell, then }) => {
                    return Action::Run { shell, then, resume: Resume { state, next: k + 1 } };
                },
                Ok(Step::Call { call, append }) => {
                    return self.call(Resume { state, next: k + 1 }, &call, append.as_str());
                },
            }
            k += 1;
        }
        Action::Finish(Ok(()))
    }

    /// Starts the statements of an invocation of `prompt`, once the chat
    /// service has returned `messages` for its request.
    pub fn evaluate_prompt(&self, prompt: &Prompt, messages: &Vec<ChatMessage>) -> (r: Action)
        ensures
            r@ == self.first_action(*prompt, messages.deep_view()),
    {
        match extract_state(prompt.name.as_str(), messages) {
            Err(e) => Action::Finish(Err(e)),
            Ok(state) => self.proceed(prompt, Resume { state, next: 0 }),
        }
    }

    /// Goes on after a command has run and written `stdout` and `stderr`.
    pub fn after_command(
        &self,
        prompt: &Prompt,
        resume: Resume,
        then: &AfterRun,
        stdout: &str,
        stderr: &str,
    ) -> (r: Decision)
        ensures
            r@ == self.command_decision(*prompt, resume@, then@, stdout@, stderr@),
    {
        match evaluate_command(stdout, stderr) {
            Err(e) => Decision { print: None, action: Action::Finish(Err(e)) },
            Ok(output) => match then {
                AfterRun::Print => {
                    let action = self.proceed(prompt, resume);
                    let print = if self.config.quiet {
                        None
                    } else {
                        Some(output)
                    };
                    Decision { print, action }
                },
                AfterRun::Pipe(call) => Decision {
                    print: None,
                    action: self.call(resume, call, output.as_str()),
                },
            },
        }
    }

    /// Goes on after the branches of a fan-out have all ended.
    pub fn after_call(&self, prompt: &Prompt, resume: Resume, branches: &Vec<Branch>) -> (r: Action)
        ensures
            r@ == self.join_action(*prompt, resume@, branches.deep_view()),
    {
        match join_results(branches) {
            Err(e) => Action::Finish(Err(e)),
            Ok(_) => self.proceed(prompt, resume),
        }
    }
}

} // verus!
