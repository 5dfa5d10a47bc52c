//! The syntax tree of a prompt program.
//!
//! Every type has a view: the same tree with strings as character sequences
//! and a compiled regex as its pattern text. Contracts elsewhere speak of
//! these views.

use vstd::prelude::*;
use vstd::std_specs::cmp::PartialEqSpecImpl;
use crate::pattern::{copy, regex_source, source};
use crate::text::{copy_texts, same_text, same_texts};

verus! {

/// A whole program: its prompts, in source order.
#[derive(Clone, Debug, PartialEq)]
pub struct Program {
    pub prompts: Vec<Prompt>,
}

/// One named prompt: an exchange with the model and what follows it.
#[derive(Clone, Debug, PartialEq)]
pub struct Prompt {
    pub is_main: bool,
    pub name: String,
    pub options: PromptOptions,
    pub statements: Vec<Statement>,
}

/// The option header of a prompt.
#[derive(Clone, Debug, PartialEq)]
pub struct PromptOptions {
    pub description: Option<String>,
    pub direction: Option<String>,
    pub eager: Option<bool>,
    pub history: Option<bool>,
}

#[derive(Clone, Debug, PartialEq)]
pub enum Statement {
    MatchStatement(MatchStatement),
    PipeStatement(PipeStatement),
    Command(Command),
}

#[derive(Clone, Debug, PartialEq)]
pub struct MatchStatement {
    pub variable: Variable,
    pub cases: Vec<MatchCase>,
}

#[derive(Debug)]
pub struct MatchCase {
    pub regex: regex::Regex,
    pub action: MatchAction,
}

#[derive(Clone, Debug, PartialEq)]
pub enum MatchAction {
    Pipe(PipeStatement),
    Command(Command),
    PromptCall(PromptCall),
}

#[derive(Clone, Debug, PartialEq)]
pub struct PipeStatement {
    pub call: PromptCall,
    pub subject: PipeSubject,
}

#[derive(Clone, Debug, PartialEq)]
pub enum PipeSubject {
    Command(Command),
    Variable(Variable),
}

#[derive(Clone, Debug, PartialEq)]
pub struct PromptCall {
    pub names: Vec<String>,
}

/// Raw shell text.
#[derive(Clone, Debug, PartialEq)]
pub struct Command(pub String);

/// A variable, by its name without the `$`.
#[derive(Clone, Debug, PartialEq)]
pub struct Variable(pub String);

pub struct PromptView {
    pub is_main: bool,
    pub name: Seq<char>,
    pub options: PromptOptionsView,
    pub statements: Seq<StatementView>,
}

pub struct PromptOptionsView {
    pub description: Option<Seq<char>>,
    pub direction: Option<Seq<char>>,
    pub eager: Option<bool>,
    pub history: Option<bool>,
}

pub enum StatementView {
    MatchStatement(MatchStatementView),
    PipeStatement(PipeStatementView),
    Command(Seq<char>),
}

pub struct MatchStatementView {
    pub variable: Seq<char>,
    pub cases: Seq<MatchCaseView>,
}

pub struct MatchCaseView {
    pub pattern: Seq<char>,
    pub action: MatchActionView,
}

pub enum MatchActionView {
    Pipe(PipeStatementView),
    Command(Seq<char>),
    PromptCall(Seq<Seq<char>>),
}

pub struct PipeStatementView {
    pub call: Seq<Seq<char>>,
    pub subject: PipeSubjectView,
}

pub enum PipeSubjectView {
    Command(Seq<char>),
    Variable(Seq<char>),
}

impl View for Variable {
    type V = Seq<char>;

    open spec fn view(&self) -> Seq<char> {
        self.0@
    }
}

impl DeepView for Variable {
    type V = Seq<char>;

    open spec fn deep_view(&self) -> Seq<char> {
        self.view()
    }
}

impl View for Command {
    type V = Seq<char>;

    open spec fn view(&self) -> Seq<char> {
        self.0@
    }
}

impl DeepView for Command {
    type V = Seq<char>;

    open spec fn deep_view(&self) -> Seq<char> {
        self.view()
    }
}

impl View for PromptCall {
    type V = Seq<Seq<char>>;

    open spec fn view(&self) -> Seq<Seq<char>> {
        self.names.deep_view()
    }
}

impl DeepView for PromptCall {
    type V = Seq<Seq<char>>;

    open spec fn deep_view(&self) -> Seq<Seq<char>> {
        self.view()
    }
}

impl View for PipeSubject {
    type V = PipeSubjectView;

    open spec fn view(&self) -> PipeSubjectView {
        match self {
            PipeSubject::Command(c) => PipeSubjectView::Command(c@),
            PipeSubject::Variable(v) => PipeSubjectView::Variable(v@),
        }
    }
}

impl DeepView for PipeSubject {
    type V = PipeSubjectView;

    open spec fn deep_view(&self) -> PipeSubjectView {
        self.view()
    }
}

impl View for PipeStatement {
    type V = PipeStatementView;

    open spec fn view(&self) -> PipeStatementView {
        PipeStatementView { call: self.call@, subject: self.subject@ }
    }
}

impl DeepView for PipeStatement {
    type V = PipeStatementView;

    open spec fn deep_view(&self) -> PipeStatementView {
        self.view()
    }
}

impl View for MatchAction {
    type V = MatchActionView;

    open spec fn view(&self) -> MatchActionView {
        match self {
            MatchAction::Pipe(p) => MatchActionView::Pipe(p@),
            MatchAction::Command(c) => MatchActionView::Command(c@),
            MatchAction::PromptCall(c) => MatchActionView::PromptCall(c@),
        }
    }
}

impl DeepView for MatchAction {
    type V = MatchActionView;

    open spec fn deep_view(&self) -> MatchActionView {
        self.view()
    }
}

impl View for MatchCase {
    type V = MatchCaseView;

    open spec fn view(&self) -> MatchCaseView {
        MatchCaseView { pattern: regex_source(self.regex), action: self.action@ }
    }
}

impl DeepView for MatchCase {
    type V = MatchCaseView;

    open spec fn deep_view(&self) -> MatchCaseView {
        self.view()
    }
}

impl View for MatchStatement {
    type V = MatchStatementView;

    open spec fn view(&self) -> MatchStatementView {
        MatchStatementView { variable: self.variable@, cases: self.cases.deep_view() }
    }
}

impl DeepView for MatchStatement {
    type V = MatchStatementView;

    open spec fn deep_view(&self) -> MatchStatementView {
        self.view()
    }
}

impl View for Statement {
    type V = StatementView;

    open spec fn view(&self) -> StatementView {
        match self {
            Statement::MatchStatement(m) => StatementView::MatchStatement(m@),
            Statement::PipeStatement(p) => StatementView::PipeStatement(p@),
            Statement::Command(c) => StatementView::Command(c@),
        }
    }
}

impl DeepView for Statement {
    type V = StatementView;

    open spec fn deep_view(&self) -> StatementView {
        self.view()
    }
}

impl View for PromptOptions {
    type V = PromptOptionsView;

    open spec fn view(&self) -> PromptOptionsView {
        PromptOptionsView {
            description: self.description.deep_view(),
            direction: self.direction.deep_view(),
            eager: self.eager,
            history: self.history,
        }
    }
}

impl DeepView for PromptOptions {
    type V = PromptOptionsView;

    open spec fn deep_view(&self) -> PromptOptionsView {
        self.view()
    }
}

impl View for Prompt {
    type V = PromptView;

    open spec fn view(&self) -> PromptView {
        PromptView {
            is_main: self.is_main,
            name: self.name@,
            options: self.options@,
            statements: self.statements.deep_view(),
        }
    }
}

impl DeepView for Prompt {
    type V = PromptView;

    open spec fn deep_view(&self) -> PromptView {
        self.view()
    }
}

impl View for Program {
    type V = Seq<PromptView>;

    open spec fn view(&self) -> Seq<PromptView> {
        self.prompts.deep_view()
    }
}

impl DeepView for Program {
    type V = Seq<PromptView>;

    open spec fn deep_view(&self) -> Seq<PromptView> {
        self.view()
    }
}

impl PromptOptionsView {
    /// The options of a prompt that has no header.
    pub open spec fn none() -> PromptOptionsView {
        PromptOptionsView { description: None, direction: None, eager: None, history: None }
    }
}

impl Default for PromptOptions {
    fn default() -> (r: PromptOptions)
        ensures
            r@ == PromptOptionsView::none(),
    {
        PromptOptions { description: None, direction: None, eager: None, history: None }
    }
}

impl PromptCall {
    /// A copy of this call.
    pub fn copy(&self) -> (r: PromptCall)
        ensures
            r@ == self@,
    {
        PromptCall { names: copy_texts(&self.names) }
    }

    /// Whether two calls name the same prompts in the same order.
    pub fn same(&self, other: &PromptCall) -> (r: bool)
        ensures
            r == (self@ == other@),
    {
        same_texts(&self.names, &other.names)
    }
}

impl PipeStatement {
    /// A copy of this statement.
    pub fn copy(&self) -> (r: PipeStatement)
        ensures
            r@ == self@,
    {
        PipeStatement {
            call: self.call.copy(),
            subject: match &self.subject {
                PipeSubject::Command(c) => PipeSubject::Command(Command(c.0.clone())),
                PipeSubject::Variable(v) => PipeSubject::Variable(Variable(v.0.clone())),
            },
        }
    }

    /// Whether two pipe statements have the same subject and the same call.
    pub fn same(&self, other: &PipeStatement) -> (r: bool)
        ensures
            r == (self@ == other@),
    {
        let subjects = match (&self.subject, &other.subject) {
            (PipeSubject::Command(a), PipeSubject::Command(b)) => a.0 == b.0,
            (PipeSubject::Variable(a), PipeSubject::Variable(b)) => a.0 == b.0,
            _ => false,
        };
        subjects && self.call.same(&other.call)
    }
}

impl MatchAction {
    /// A copy of this action.
    pub fn copy(&self) -> (r: MatchAction)
        ensures
            r@ == self@,
    {
        match self {
            MatchAction::Pipe(p) => MatchAction::Pipe(p.copy()),
            MatchAction::Command(c) => MatchAction::Command(Command(c.0.clone())),
            MatchAction::PromptCall(c) => MatchAction::PromptCall(c.copy()),
        }
    }

    /// Whether two actions are the same kind of action on the same texts.
    pub fn same(&self, other: &MatchAction) -> (r: bool)
        ensures
            r == (self@ == other@),
    {
        match (self, other) {
            (MatchAction::Pipe(a), MatchAction::Pipe(b)) => a.same(b),
            (MatchAction::Command(a), MatchAction::Command(b)) => a.0 == b.0,
            (MatchAction::PromptCall(a), MatchAction::PromptCall(b)) => a.same(b),
            _ => false,
        }
    }
}

impl Clone for MatchCase {
    fn clone(&self) -> (r: MatchCase)
        ensures
            r@ == self@,
            r.regex == self.regex,
    {
        MatchCase { regex: copy(&self.regex), action: self.action.copy() }
    }
}

impl PartialEq for MatchCase {
    /// Two cases are equal when their actions are and their regexes were
    /// written the same.
    fn eq(&self, other: &MatchCase) -> (r: bool) {
        self.action.same(&other.action) && same_text(source(&self.regex), source(&other.regex))
    }
}

impl PartialEqSpecImpl for MatchCase {
    open spec fn obeys_eq_spec() -> bool {
        true
    }

    open spec fn eq_spec(&self, other: &MatchCase) -> bool {
        self@ == other@
    }
}

/// A program has at most one prompt flagged `is_main`, and if any, it is the first.
pub open spec fn main_is_first(prompts: Seq<PromptView>) -> bool {
    forall|i: int| 0 <= i < prompts.len() ==> (#[trigger] prompts[i].is_main <==> i == 0)
}

} // verus!
