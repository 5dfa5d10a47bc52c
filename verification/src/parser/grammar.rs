//! The grammar of prompt programs, as functions on a sequence of characters.
//!
//! A rule takes the text and a position, and gives what it reads there and
//! the position after it, or `None` if it does not apply. Alternatives are
//! tried in order and the first that applies is taken; a repetition takes as
//! many items as it can. Whitespace and comments may stand between tokens.
//!
//! ```text
//! program    = prompt*
//! prompt     = name header "{" statement* "}"
//! header     = any text without "{"
//! statement  = match / pipe / command
//! match      = "match" variable "{" (case ("," case)*)? "}"
//! case       = regex "=>" (pipe / command / call)
//! pipe       = (command / variable) "->" call
//! call       = name ("," name)*
//! command    = "`" any text without "`" "`"
//! variable   = "$" word
//! name       = word
//! regex      = "(" ... ")", up to the parenthesis that closes the first
//! ```

use vstd::prelude::*;
use crate::ast::{
    MatchActionView, MatchCaseView, MatchStatementView, PipeStatementView, PipeSubjectView,
    PromptView, StatementView,
};
use crate::parser::header::{header_options, OptionsErrorView};
use crate::pattern::regex_compiles;
use crate::text::position_of;

verus! {

/// A letter, a digit or an underscore.
pub open spec fn is_word_char(c: char) -> bool {
    ('a' <= c <= 'z') || ('A' <= c <= 'Z') || ('0' <= c <= '9') || c == '_'
}

/// A space, a tab, a carriage return or a line feed.
pub open spec fn is_space(c: char) -> bool {
    c == ' ' || c == '\t' || c == '\r' || c == '\n'
}

/// The end of the run of word characters that starts at `i`.
pub open spec fn word_end(s: Seq<char>, i: int) -> int
    decreases s.len() - i,
{
    if 0 <= i < s.len() && is_word_char(s[i]) {
        word_end(s, i + 1)
    } else {
        i
    }
}

/// The first position at or after `i` that is neither whitespace nor part of
/// a comment. A comment runs from a `#` to the end of its line.
pub open spec fn skip_from(s: Seq<char>, i: int, in_comment: bool) -> int
    decreases s.len() - i,
{
    if !(0 <= i < s.len()) {
        i
    } else if in_comment {
        skip_from(s, i + 1, s[i] != '\n' && s[i] != '\r')
    } else if is_space(s[i]) {
        skip_from(s, i + 1, false)
    } else if s[i] == '#' {
        skip_from(s, i + 1, true)
    } else {
        i
    }
}

/// The position after the whitespace and comments that start at `i`.
pub open spec fn skip(s: Seq<char>, i: int) -> int {
    skip_from(s, i, false)
}

/// Whether `token` stands at position `i`.
pub open spec fn has_at(s: Seq<char>, i: int, token: Seq<char>) -> bool {
    0 <= i && i + token.len() <= s.len() && s.subrange(i, i + token.len()) == token
}

/// The keyword that opens a match statement.
pub open spec fn keyword_match() -> Seq<char> {
    seq!['m', 'a', 't', 'c', 'h']
}

/// The arrow between the regex of a case and its action.
pub open spec fn arrow_case() -> Seq<char> {
    seq!['=', '>']
}

/// The arrow between the subject of a pipe statement and its call.
pub open spec fn arrow_pipe() -> Seq<char> {
    seq!['-', '>']
}

/// A variable: `$` and one or more word characters.
pub open spec fn variable(s: Seq<char>, i: int) -> Option<(Seq<char>, int)> {
    let e = word_end(s, i + 1);
    if 0 <= i < s.len() && s[i] == '$' && i + 1 < e {
        Some((s.subrange(i + 1, e), e))
    } else {
        None
    }
}

/// A command: text between two backticks. The text holds no backtick.
pub open spec fn command(s: Seq<char>, i: int) -> Option<(Seq<char>, int)> {
    let e = position_of(s, i + 1, '`');
    if 0 <= i < s.len() && s[i] == '`' && i < e < s.len() {
        Some((s.subrange(i + 1, e), e + 1))
    } else {
        None
    }
}

/// The position after the parenthesis that closes `depth` open ones, reading
/// from `i`. Every `(` opens one and every `)` closes one, whatever stands
/// around them.
pub open spec fn close_paren(s: Seq<char>, i: int, depth: int) -> Option<int>
    decreases s.len() - i,
{
    if !(0 <= i < s.len()) {
        None
    } else if s[i] == '(' {
        close_paren(s, i + 1, depth + 1)
    } else if s[i] == ')' {
        if depth <= 1 {
            Some(i + 1)
        } else {
            close_paren(s, i + 1, depth - 1)
        }
    } else {
        close_paren(s, i + 1, depth)
    }
}

/// The end of the balanced parenthesised span that starts at `i`.
pub open spec fn regex_span(s: Seq<char>, i: int) -> Option<int> {
    if 0 <= i < s.len() && s[i] == '(' {
        close_paren(s, i + 1, 1)
    } else {
        None
    }
}

/// A regex literal: a balanced parenthesised span whose text, parentheses
/// included, the regex engine accepts.
pub open spec fn regex_literal(s: Seq<char>, i: int) -> Option<(Seq<char>, int)> {
    match regex_span(s, i) {
        Some(e) => if regex_compiles(s.subrange(i, e)) {
            Some((s.subrange(i, e), e))
        } else {
            None
        },
        None => None,
    }
}

/// A prompt name: one or more word characters, after whitespace and comments.
pub open spec fn prompt_name(s: Seq<char>, i: int) -> Option<(Seq<char>, int)> {
    let start = skip(s, i);
    let e = word_end(s, start);
    if 0 <= start < e {
        Some((s.subrange(start, e), e))
    } else {
        None
    }
}

/// The names that follow the first of a call: each after a comma that stands
/// directly behind the name before it.
pub open spec fn more_names(s: Seq<char>, i: int) -> (Seq<Seq<char>>, int)
    decreases s.len() - i,
{
    if 0 <= i < s.len() && s[i] == ',' {
        match prompt_name(s, i + 1) {
            Some((name, e)) => if i < e <= s.len() {
                (seq![name] + more_names(s, e).0, more_names(s, e).1)
            } else {
                (Seq::empty(), i)
            },
            None => (Seq::empty(), i),
        }
    } else {
        (Seq::empty(), i)
    }
}

/// A prompt call: one or more prompt names, separated by commas.
pub open spec fn prompt_call(s: Seq<char>, i: int) -> Option<(Seq<Seq<char>>, int)> {
    match prompt_name(s, i) {
        Some((name, e)) => Some((seq![name] + more_names(s, e).0, more_names(s, e).1)),
        None => None,
    }
}

/// The subject of a pipe statement: a command or a variable.
pub open spec fn pipe_subject(s: Seq<char>, i: int) -> Option<(PipeSubjectView, int)> {
    match command(s, i) {
        Some((c, e)) => Some((PipeSubjectView::Command(c), e)),
        None => match variable(s, i) {
            Some((v, e)) => Some((PipeSubjectView::Variable(v), e)),
            None => None,
        },
    }
}

/// A pipe statement: a subject, `->`, and the call that receives its text.
pub open spec fn pipe_statement(s: Seq<char>, i: int) -> Option<(PipeStatementView, int)> {
    match pipe_subject(s, i) {
        Some((subject, e)) => {
            let arrow = skip(s, e);
            if has_at(s, arrow, arrow_pipe()) {
                match prompt_call(s, skip(s, arrow + 2)) {
                    Some((call, end)) => Some((PipeStatementView { call, subject }, end)),
                    None => None,
                }
            } else {
                None
            }
        },
        None => None,
    }
}

/// The action of a match case: a pipe statement, else a command, else a
/// prompt call.
pub open spec fn match_action(s: Seq<char>, i: int) -> Option<(MatchActionView, int)> {
    match pipe_statement(s, i) {
        Some((p, e)) => Some((MatchActionView::Pipe(p), e)),
        None => match command(s, i) {
            Some((c, e)) => Some((MatchActionView::Command(c), e)),
            None => match prompt_call(s, i) {
                Some((c, e)) => Some((MatchActionView::PromptCall(c), e)),
                None => None,
            },
        },
    }
}

/// A match case: a regex literal, `=>` and an action, with the whitespace
/// and comments around them.
pub open spec fn match_case(s: Seq<char>, i: int) -> Option<(MatchCaseView, int)> {
    match regex_literal(s, skip(s, i)) {
        Some((pattern, e)) => {
            let arrow = skip(s, e);
            if has_at(s, arrow, arrow_case()) {
                match match_action(s, skip(s, arrow + 2)) {
                    Some((action, end)) => Some((MatchCaseView { pattern, action }, skip(s, end))),
                    None => None,
                }
            } else {
                None
            }
        },
        None => None,
    }
}

/// The cases that follow the first: each after a comma.
pub open spec fn more_cases(s: Seq<char>, i: int) -> (Seq<MatchCaseView>, int)
    decreases s.len() - i,
{
    if 0 <= i < s.len() && s[i] == ',' {
        match match_case(s, i + 1) {
            Some((case, e)) => if i < e <= s.len() {
                (seq![case] + more_cases(s, e).0, more_cases(s, e).1)
            } else {
                (Seq::empty(), i)
            },
            None => (Seq::empty(), i),
        }
    } else {
        (Seq::empty(), i)
    }
}

/// The cases of a match statement: none, or some separated by commas.
pub open spec fn match_cases(s: Seq<char>, i: int) -> (Seq<MatchCaseView>, int) {
    let start = skip(s, i);
    match match_case(s, start) {
        Some((case, e)) => (seq![case] + more_cases(s, e).0, skip(s, more_cases(s, e).1)),
        None => (Seq::empty(), skip(s, start)),
    }
}

/// A match statement: `match`, a variable, and the cases in braces.
pub open spec fn match_statement(s: Seq<char>, i: int) -> Option<(MatchStatementView, int)> {
    if has_at(s, i, keyword_match()) {
        match variable(s, skip(s, i + 5)) {
            Some((v, e)) => {
                let open = skip(s, e);
                if 0 <= open < s.len() && s[open] == '{' {
                    let (cases, close) = match_cases(s, open + 1);
                    if 0 <= close < s.len() && s[close] == '}' {
                        Some((MatchStatementView { variable: v, cases }, skip(s, close + 1)))
                    } else {
                        None
                    }
                } else {
                    None
                }
            },
            None => None,
        }
    } else {
        None
    }
}

/// A statement: a match statement, else a pipe statement, else a command.
pub open spec fn statement(s: Seq<char>, i: int) -> Option<(StatementView, int)> {
    match match_statement(s, i) {
        Some((m, e)) => Some((StatementView::MatchStatement(m), skip(s, e))),
        None => match pipe_statement(s, i) {
            Some((p, e)) => Some((StatementView::PipeStatement(p), skip(s, e))),
            None => match command(s, i) {
                Some((c, e)) => Some((StatementView::Command(c), skip(s, e))),
                None => None,
            },
        },
    }
}

/// The statements from `i` on, as many as there are.
pub open spec fn more_statements(s: Seq<char>, i: int) -> (Seq<StatementView>, int)
    decreases s.len() - i,
{
    match statement(s, skip(s, i)) {
        Some((st, e)) => if i < e <= s.len() {
            (seq![st] + more_statements(s, e).0, more_statements(s, e).1)
        } else {
            (Seq::empty(), i)
        },
        None => (Seq::empty(), i),
    }
}

/// The statements of a block.
pub open spec fn statements(s: Seq<char>, i: int) -> (Seq<StatementView>, int) {
    let start = skip(s, i);
    match statement(s, start) {
        Some((st, e)) => (seq![st] + more_statements(s, e).0, more_statements(s, e).1),
        None => (Seq::empty(), start),
    }
}

/// A prompt block as it is read: the prompt, or why its header is refused.
pub type PromptResult = Result<PromptView, OptionsErrorView>;

/// The prompt that a name, a header and a list of statements make up.
pub open spec fn make_prompt(
    name: Seq<char>,
    header: Seq<char>,
    statements: Seq<StatementView>,
) -> PromptResult {
    match header_options(header) {
        Ok(options) => Ok(PromptView { is_main: false, name, options, statements }),
        Err(e) => Err(e),
    }
}

/// A prompt block: a name, the header up to the first `{`, and the
/// statements in braces.
pub open spec fn prompt(s: Seq<char>, i: int) -> Option<(PromptResult, int)> {
    match prompt_name(s, skip(s, i)) {
        Some((name, e)) => {
            let open = position_of(s, e, '{');
            if 0 <= e <= open < s.len() {
                let (body, after) = statements(s, skip(s, open + 1));
                let close = skip(s, after);
                if 0 <= close < s.len() && s[close] == '}' {
                    Some((make_prompt(name, s.subrange(e, open), body), skip(s, close + 1)))
                } else {
                    None
                }
            } else {
                None
            }
        },
        None => None,
    }
}

/// The prompt blocks from `i` on, as many as there are.
pub open spec fn prompts(s: Seq<char>, i: int) -> (Seq<PromptResult>, int)
    decreases s.len() - i,
{
    match prompt(s, i) {
        Some((p, e)) => if i < e <= s.len() {
            (seq![p] + prompts(s, e).0, prompts(s, e).1)
        } else {
            (Seq::empty(), i)
        },
        None => (Seq::empty(), i),
    }
}

/// The index of the first refused prompt at or after `i`, or the number of
/// prompts.
pub open spec fn first_refused(blocks: Seq<PromptResult>, i: int) -> int
    decreases blocks.len() - i,
{
    if 0 <= i < blocks.len() && blocks[i] is Ok {
        first_refused(blocks, i + 1)
    } else {
        i
    }
}

/// The program that a list of prompt blocks makes up: the first refusal if
/// there is one, else the prompts with the first of them marked as main.
pub open spec fn make_program(blocks: Seq<PromptResult>) -> Result<Seq<PromptView>, OptionsErrorView> {
    let bad = first_refused(blocks, 0);
    if 0 <= bad < blocks.len() {
        Err(blocks[bad]->Err_0)
    } else {
        Ok(
            Seq::new(
                blocks.len(),
                |k: int|
                    PromptView {
                        is_main: k == 0,
                        name: blocks[k]->Ok_0.name,
                        options: blocks[k]->Ok_0.options,
                        statements: blocks[k]->Ok_0.statements,
                    },
            ),
        )
    }
}

/// What a rule reads from the whole of a text: its result at position 0 if
/// it ends where the text ends.
pub open spec fn whole<T>(read: Option<(T, int)>, len: nat) -> Option<T> {
    match read {
        Some((v, e)) => if e == len {
            Some(v)
        } else {
            None
        },
        None => None,
    }
}

/// The statements that make up the whole of `s`.
pub open spec fn whole_statements(s: Seq<char>) -> Option<Seq<StatementView>> {
    if statements(s, 0).1 == s.len() {
        Some(statements(s, 0).0)
    } else {
        None
    }
}

/// The program that the whole of `s` is: `None` where the text is no
/// program, else the program or the first header that is refused.
pub open spec fn program(s: Seq<char>) -> Option<Result<Seq<PromptView>, OptionsErrorView>> {
    let (blocks, e) = prompts(s, skip(s, 0));
    if skip(s, e) == s.len() {
        Some(make_program(blocks))
    } else {
        None
    }
}

/// The number of parentheses that `s[from..to]` opens and does not close.
pub open spec fn paren_depth(s: Seq<char>, from: int, to: int) -> int
    decreases to - from,
{
    if to <= from || to > s.len() || from < 0 {
        0
    } else {
        paren_depth(s, from, to - 1) + if s[to - 1] == '(' {
            1int
        } else if s[to - 1] == ')' {
            -1int
        } else {
            0int
        }
    }
}

proof fn lemma_close_paren(s: Seq<char>, i: int, j: int, depth: int)
    requires
        0 <= i < j <= s.len(),
        depth == paren_depth(s, i, j),
        forall|k: int| i < k <= j ==> paren_depth(s, i, k) > 0,
    ensures
        match close_paren(s, j, depth) {
            Some(e) => {
                &&& j < e <= s.len()
                &&& s[e - 1] == ')'
                &&& paren_depth(s, i, e) == 0
                &&& forall|k: int| i < k < e ==> paren_depth(s, i, k) > 0
            },
            None => forall|k: int| i < k <= s.len() ==> paren_depth(s, i, k) > 0,
        },
    decreases s.len() - j,
{
    if j < s.len() {
        if s[j] == '(' {
            lemma_close_paren(s, i, j + 1, depth + 1);
        } else if s[j] == ')' {
            if depth > 1 {
                lemma_close_paren(s, i, j + 1, depth - 1);
            }
        } else {
            lemma_close_paren(s, i, j + 1, depth);
        }
    }
}

/// A regex literal is a balanced span: it starts with `(` and ends with the
/// `)` at which, for the first time, every parenthesis that was opened is
/// closed. Where that never happens there is no literal.
pub proof fn lemma_regex_span_is_balanced(s: Seq<char>, i: int)
    requires
        0 <= i < s.len(),
        s[i] == '(',
    ensures
        match regex_span(s, i) {
            Some(e) => {
                &&& i < e <= s.len()
                &&& s[e - 1] == ')'
                &&& paren_depth(s, i, e) == 0
                &&& forall|k: int| i < k < e ==> paren_depth(s, i, k) > 0
            },
            None => forall|k: int| i < k <= s.len() ==> paren_depth(s, i, k) > 0,
        },
{
    assert(paren_depth(s, i, i) == 0);
    assert(paren_depth(s, i, i + 1) == 1);
    lemma_close_paren(s, i, i + 1, 1);
}

/// A literal whose first parenthesis is never closed is rejected: no regex
/// is read from it, whatever follows.
pub proof fn lemma_unbalanced_regex_fails(s: Seq<char>)
    requires
        forall|k: int| 0 < k <= s.len() ==> paren_depth(s, 0, k) > 0,
    ensures
        regex_literal(s, 0) is None,
        whole(regex_literal(s, 0), s.len()) is None,
{
    if 0 < s.len() && s[0] == '(' {
        lemma_regex_span_is_balanced(s, 0);
        if regex_span(s, 0) is Some {
            let e = regex_span(s, 0)->0;
            assert(paren_depth(s, 0, e) > 0);
        }
    }
}

} // verus!
