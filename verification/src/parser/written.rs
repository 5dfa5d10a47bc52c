//! Programs written out: the text that stands for a piece of syntax, and
//! the proof that parsing that text gives the same piece back.

use vstd::prelude::*;
use crate::ast::{
    MatchActionView, MatchCaseView, MatchStatementView, PipeStatementView, PipeSubjectView,
    PromptOptionsView, PromptView, StatementView,
};
use crate::parser::grammar::{
    arrow_case, arrow_pipe, close_paren, command, first_refused, has_at, is_space, is_word_char,
    keyword_match, make_program, match_action, match_case, match_cases, match_statement,
    more_cases, more_names, more_statements, pipe_statement, pipe_subject, program, prompt,
    prompt_call, prompt_name, prompts, regex_literal, regex_span, skip, skip_from, statement,
    statements, variable, whole, whole_statements, word_end, PromptResult,
};
use crate::parser::header::{
    dedent, dedent_lines, header_options, join_lines, OptionsErrorView,
};
use crate::text::lines;
use crate::text::position_of;

verus! {

/// A word: one or more letters, digits and underscores.
pub open spec fn is_word(w: Seq<char>) -> bool {
    w.len() > 0 && forall|k: int| 0 <= k < w.len() ==> is_word_char(#[trigger] w[k])
}

/// A variable, written out.
pub open spec fn written_variable(name: Seq<char>) -> Seq<char> {
    seq!['$'] + name
}

/// A command, written out.
pub open spec fn written_command(text: Seq<char>) -> Seq<char> {
    seq!['`'] + text + seq!['`']
}

/// The names of a call from index `k` on, written out with a comma and a
/// space between one and the next.
pub open spec fn written_names(names: Seq<Seq<char>>, k: int) -> Seq<char>
    decreases names.len() - k,
{
    if !(0 <= k < names.len()) {
        Seq::empty()
    } else if k + 1 == names.len() {
        names[k]
    } else {
        names[k] + seq![',', ' '] + written_names(names, k + 1)
    }
}

/// A prompt call, written out.
pub open spec fn written_call(names: Seq<Seq<char>>) -> Seq<char> {
    written_names(names, 0)
}

/// The subject of a pipe statement, written out.
pub open spec fn written_subject(subject: PipeSubjectView) -> Seq<char> {
    match subject {
        PipeSubjectView::Command(c) => written_command(c),
        PipeSubjectView::Variable(v) => written_variable(v),
    }
}

/// A pipe statement, written out.
pub open spec fn written_pipe(pipe: PipeStatementView) -> Seq<char> {
    written_subject(pipe.subject) + seq![' ', '-', '>', ' '] + written_call(pipe.call)
}

/// Whether a call can be written: it names at least one prompt, and every
/// name is a word.
pub open spec fn call_is_valid(names: Seq<Seq<char>>) -> bool {
    names.len() > 0 && forall|k: int| 0 <= k < names.len() ==> is_word(#[trigger] names[k])
}

/// Whether a pipe statement can be written: a command holds no backtick, a
/// variable is a word, and the call is valid.
pub open spec fn pipe_is_valid(pipe: PipeStatementView) -> bool {
    &&& call_is_valid(pipe.call)
    &&& match pipe.subject {
        PipeSubjectView::Command(c) => !c.contains('`'),
        PipeSubjectView::Variable(v) => is_word(v),
    }
}

proof fn lemma_word_end(s: Seq<char>, i: int, n: int)
    requires
        0 <= i,
        0 <= n,
        i + n <= s.len(),
        forall|k: int| i <= k < i + n ==> is_word_char(#[trigger] s[k]),
        i + n == s.len() || !is_word_char(s[i + n]),
    ensures
        word_end(s, i) == i + n,
    decreases n,
{
    if n > 0 {
        lemma_word_end(s, i + 1, n - 1);
    }
}

proof fn lemma_skip_nothing(s: Seq<char>, i: int)
    requires
        0 <= i <= s.len(),
        i < s.len() ==> !is_space(s[i]) && s[i] != '#',
    ensures
        skip(s, i) == i,
{
}

proof fn lemma_skip_space(s: Seq<char>, i: int)
    requires
        0 <= i < s.len(),
        s[i] == ' ',
        i + 1 < s.len() ==> !is_space(s[i + 1]) && s[i + 1] != '#',
    ensures
        skip(s, i) == i + 1,
{
    assert(skip_from(s, i, false) == skip_from(s, i + 1, false));
    lemma_skip_nothing(s, i + 1);
}

proof fn lemma_position_of(s: Seq<char>, i: int, n: int, c: char)
    requires
        0 <= i,
        0 <= n,
        i + n <= s.len(),
        forall|k: int| i <= k < i + n ==> #[trigger] s[k] != c,
        i + n == s.len() || s[i + n] == c,
    ensures
        position_of(s, i, c) == i + n,
    decreases n,
{
    if n > 0 {
        lemma_position_of(s, i + 1, n - 1, c);
    }
}

/// Whether the text `w` stands in `s` at position `i`.
pub open spec fn stands_at(s: Seq<char>, i: int, w: Seq<char>) -> bool {
    0 <= i && i + w.len() <= s.len() && forall|k: int| 0 <= k < w.len() ==> s[i + k] == #[trigger] w[k]
}

proof fn lemma_stands_whole(s: Seq<char>)
    ensures
        stands_at(s, 0, s),
{
}

proof fn lemma_stands_split(s: Seq<char>, i: int, a: Seq<char>, b: Seq<char>)
    requires
        stands_at(s, i, a + b),
    ensures
        stands_at(s, i, a),
        stands_at(s, i + a.len(), b),
{
    assert forall|k: int| 0 <= k < a.len() implies s[i + k] == #[trigger] a[k] by {
        assert((a + b)[k] == a[k]);
    }
    assert forall|k: int| 0 <= k < b.len() implies s[i + a.len() + k] == #[trigger] b[k] by {
        assert((a + b)[a.len() + k] == b[k]);
    }
}

proof fn lemma_stands_text(s: Seq<char>, i: int, w: Seq<char>)
    requires
        stands_at(s, i, w),
    ensures
        s.subrange(i, i + w.len()) == w,
{
    assert(s.subrange(i, i + w.len()) =~= w);
}

proof fn lemma_word_stands(s: Seq<char>, i: int, w: Seq<char>)
    requires
        is_word(w),
        stands_at(s, i, w),
        i + w.len() == s.len() || !is_word_char(s[i + w.len()]),
    ensures
        word_end(s, i) == i + w.len(),
        skip(s, i) == i,
{
    assert forall|k: int| i <= k < i + w.len() implies is_word_char(#[trigger] s[k]) by {
        assert(s[i + (k - i)] == w[k - i]);
    }
    lemma_word_end(s, i, w.len() as int);
    assert(s[i + 0] == w[0]);
    lemma_skip_nothing(s, i);
}

/// Where the text holds a written variable at `i`, and no word character
/// behind it, the variable is read there.
pub proof fn lemma_variable_at(s: Seq<char>, i: int, name: Seq<char>)
    requires
        is_word(name),
        stands_at(s, i, written_variable(name)),
        i + 1 + name.len() == s.len() || !is_word_char(s[i + 1 + name.len()]),
    ensures
        variable(s, i) == Some((name, i + 1 + name.len())),
{
    lemma_stands_split(s, i, seq!['$'], name);
    assert(s[i + 0] == seq!['$'][0]);
    lemma_word_stands(s, i + 1, name);
    lemma_stands_text(s, i + 1, name);
}

/// Where the text holds a written command at `i`, the command is read
/// there.
pub proof fn lemma_command_at(s: Seq<char>, i: int, text: Seq<char>)
    requires
        !text.contains('`'),
        stands_at(s, i, written_command(text)),
    ensures
        command(s, i) == Some((text, i + 2 + text.len())),
{
    let n = text.len() as int;
    lemma_stands_split(s, i, seq!['`'] + text, seq!['`']);
    lemma_stands_split(s, i, seq!['`'], text);
    assert(s[i + 0] == seq!['`'][0]);
    assert(s[i + 1 + n + 0] == seq!['`'][0]);
    assert forall|k: int| i + 1 <= k < i + 1 + n implies #[trigger] s[k] != '`' by {
        assert(s[i + 1 + (k - i - 1)] == text[k - i - 1]);
        assert(text.contains(text[k - i - 1]));
    }
    lemma_position_of(s, i + 1, n, '`');
    lemma_stands_text(s, i + 1, text);
}

/// A variable that is written out and parsed is the variable.
pub proof fn lemma_variable_round_trip(name: Seq<char>)
    requires
        is_word(name),
    ensures
        whole(variable(written_variable(name), 0), written_variable(name).len()) == Some(name),
{
    let s = written_variable(name);
    lemma_stands_whole(s);
    lemma_variable_at(s, 0, name);
}

/// A command that is written out and parsed is the command.
pub proof fn lemma_command_round_trip(text: Seq<char>)
    requires
        !text.contains('`'),
    ensures
        whole(command(written_command(text), 0), written_command(text).len()) == Some(text),
{
    let s = written_command(text);
    lemma_stands_whole(s);
    lemma_command_at(s, 0, text);
}

/// Where the text holds the written names `names[k..]` at `i`, and behind
/// them neither a word character nor a further name, the names are read
/// there: the first as a prompt name, the others as the names that follow.
pub proof fn lemma_names_at(s: Seq<char>, i: int, names: Seq<Seq<char>>, k: int)
    requires
        call_is_valid(names),
        0 <= k < names.len(),
        stands_at(s, i, written_names(names, k)),
        ({
            let end = i + written_names(names, k).len();
            &&& end == s.len() || !is_word_char(s[end])
            &&& more_names(s, end) == (Seq::<Seq<char>>::empty(), end)
        }),
    ensures
        prompt_name(s, i) == Some((names[k], i + names[k].len())),
        more_names(s, i + names[k].len()) == (
            names.subrange(k + 1, names.len() as int),
            i + written_names(names, k).len(),
        ),
    decreases names.len() - k,
{
    let name = names[k];
    let end = i + written_names(names, k).len();
    assert(is_word(name));
    if k + 1 == names.len() {
        lemma_word_stands(s, i, name);
        lemma_stands_text(s, i, name);
        assert(names.subrange(k + 1, names.len() as int) =~= Seq::<Seq<char>>::empty());
    } else {
        let rest = written_names(names, k + 1);
        let next = names[k + 1];
        assert(is_word(next));
        lemma_stands_split(s, i, name + seq![',', ' '], rest);
        lemma_stands_split(s, i, name, seq![',', ' ']);
        let comma = i + name.len();
        assert(s[comma + 0] == seq![',', ' '][0]);
        assert(s[comma + 1] == seq![',', ' '][1]);
        lemma_word_stands(s, i, name);
        lemma_stands_text(s, i, name);
        lemma_names_at(s, comma + 2, names, k + 1);
        // the name behind the comma is read through the space before it
        assert(stands_at(s, comma + 2, next)) by {
            if k + 2 == names.len() {
            } else {
                lemma_stands_split(
                    s,
                    comma + 2,
                    next + seq![',', ' '],
                    written_names(names, k + 2),
                );
                lemma_stands_split(s, comma + 2, next, seq![',', ' ']);
            }
        }
        assert(s[comma + 2 + 0] == next[0]);
        lemma_skip_space(s, comma + 1);
        assert(prompt_name(s, comma + 1) == prompt_name(s, comma + 2)) by {
            assert(skip(s, comma + 2) == comma + 2) by {
                lemma_skip_nothing(s, comma + 2);
            }
        }
        assert(names.subrange(k + 1, names.len() as int) =~= seq![next] + names.subrange(
            k + 2,
            names.len() as int,
        ));
    }
}

/// Where the text holds a written call at `i`, and behind it neither a
/// word character nor a further name, the call is read there.
pub proof fn lemma_call_at(s: Seq<char>, i: int, names: Seq<Seq<char>>)
    requires
        call_is_valid(names),
        stands_at(s, i, written_call(names)),
        ({
            let end = i + written_call(names).len();
            &&& end == s.len() || !is_word_char(s[end])
            &&& more_names(s, end) == (Seq::<Seq<char>>::empty(), end)
        }),
    ensures
        prompt_call(s, i) == Some((names, i + written_call(names).len())),
{
    lemma_names_at(s, i, names, 0);
    assert(seq![names[0]] + names.subrange(1, names.len() as int) =~= names);
}

/// A prompt call that is written out and parsed is the call.
pub proof fn lemma_call_round_trip(names: Seq<Seq<char>>)
    requires
        call_is_valid(names),
    ensures
        whole(prompt_call(written_call(names), 0), written_call(names).len()) == Some(names),
{
    let s = written_call(names);
    lemma_stands_whole(s);
    lemma_call_at(s, 0, names);
}

/// Whether a call can end at `end`: no word character stands there, and no
/// further name follows.
pub open spec fn call_ends(s: Seq<char>, end: int) -> bool {
    &&& end == s.len() || !is_word_char(s[end])
    &&& more_names(s, end) == (Seq::<Seq<char>>::empty(), end)
}

proof fn lemma_call_ends(s: Seq<char>, end: int)
    requires
        0 <= end <= s.len(),
        end < s.len() ==> !is_word_char(s[end]) && s[end] != ',',
    ensures
        call_ends(s, end),
{
}

proof fn lemma_call_ends_before_case(s: Seq<char>, end: int)
    requires
        0 <= end,
        end + 2 < s.len(),
        s[end] == ',',
        s[end + 1] == ' ',
        s[end + 2] == '(',
    ensures
        call_ends(s, end),
        skip(s, end + 1) == end + 2,
{
    lemma_skip_space(s, end + 1);
    assert(word_end(s, end + 2) == end + 2);
    assert(prompt_name(s, end + 1) is None);
}

/// Where the text holds a written pipe statement at `i`, and the call can
/// end behind it, the statement is read there.
pub proof fn lemma_pipe_at(s: Seq<char>, i: int, pipe: PipeStatementView)
    requires
        pipe_is_valid(pipe),
        stands_at(s, i, written_pipe(pipe)),
        call_ends(s, i + written_pipe(pipe).len()),
    ensures
        pipe_statement(s, i) == Some((pipe, i + written_pipe(pipe).len())),
{
    let subject = written_subject(pipe.subject);
    let arrow = seq![' ', '-', '>', ' '];
    let e = i + subject.len();
    lemma_stands_split(s, i, subject + arrow, written_call(pipe.call));
    lemma_stands_split(s, i, subject, arrow);
    assert(s[e + 0] == arrow[0] && s[e + 1] == arrow[1] && s[e + 2] == arrow[2] && s[e + 3]
        == arrow[3]);
    match pipe.subject {
        PipeSubjectView::Command(c) => {
            lemma_command_at(s, i, c);
        },
        PipeSubjectView::Variable(v) => {
            lemma_variable_at(s, i, v);
            assert(command(s, i) is None) by {
                assert(s[i + 0] == written_variable(v)[0]);
            }
        },
    }
    assert(pipe_subject(s, i) == Some((pipe.subject, e)));
    lemma_skip_space(s, e);
    assert(has_at(s, e + 1, arrow_pipe())) by {
        assert(s.subrange(e + 1, e + 3) =~= arrow_pipe());
    }
    lemma_first_name_stands(s, e + 4, pipe.call);
    assert(s[e + 4 + 0] == pipe.call[0][0]);
    lemma_skip_space(s, e + 3);
    lemma_call_at(s, e + 4, pipe.call);
}

proof fn lemma_first_name_stands(s: Seq<char>, i: int, names: Seq<Seq<char>>)
    requires
        call_is_valid(names),
        stands_at(s, i, written_call(names)),
    ensures
        stands_at(s, i, names[0]),
        is_word(names[0]),
        is_word_char(s[i]),
{
    if names.len() > 1 {
        lemma_stands_split(s, i, names[0] + seq![',', ' '], written_names(names, 1));
        lemma_stands_split(s, i, names[0], seq![',', ' ']);
    }
    assert(s[i + 0] == names[0][0]);
}

/// A pipe statement that is written out and parsed is the statement.
pub proof fn lemma_pipe_round_trip(pipe: PipeStatementView)
    requires
        pipe_is_valid(pipe),
    ensures
        whole(pipe_statement(written_pipe(pipe), 0), written_pipe(pipe).len()) == Some(pipe),
{
    let s = written_pipe(pipe);
    lemma_stands_whole(s);
    lemma_call_ends(s, s.len() as int);
    lemma_pipe_at(s, 0, pipe);
}

/// The action of a match case, written out.
pub open spec fn written_action(action: MatchActionView) -> Seq<char> {
    match action {
        MatchActionView::Pipe(p) => written_pipe(p),
        MatchActionView::Command(c) => written_command(c),
        MatchActionView::PromptCall(names) => written_call(names),
    }
}

/// Whether an action can be written.
pub open spec fn action_is_valid(action: MatchActionView) -> bool {
    match action {
        MatchActionView::Pipe(p) => pipe_is_valid(p),
        MatchActionView::Command(c) => !c.contains('`'),
        MatchActionView::PromptCall(names) => call_is_valid(names),
    }
}

/// A match case, written out.
pub open spec fn written_case(case: MatchCaseView) -> Seq<char> {
    case.pattern + seq![' ', '=', '>', ' '] + written_action(case.action)
}

/// Whether a case can be written: its pattern is a regex literal from its
/// first character to its last, and its action can be written.
pub open spec fn case_is_valid(case: MatchCaseView) -> bool {
    &&& regex_literal(case.pattern, 0) == Some((case.pattern, case.pattern.len() as int))
    &&& action_is_valid(case.action)
}

/// The cases from index `k` on, written out with a comma and a space
/// between one and the next.
pub open spec fn written_cases(cases: Seq<MatchCaseView>, k: int) -> Seq<char>
    decreases cases.len() - k,
{
    if !(0 <= k < cases.len()) {
        Seq::empty()
    } else if k + 1 == cases.len() {
        written_case(cases[k])
    } else {
        written_case(cases[k]) + seq![',', ' '] + written_cases(cases, k + 1)
    }
}

/// A match statement, written out.
pub open spec fn written_match(m: MatchStatementView) -> Seq<char> {
    keyword_match() + seq![' '] + written_variable(m.variable) + seq![' ', '{'] + (if m.cases.len()
        == 0 {
        Seq::empty()
    } else {
        seq![' '] + written_cases(m.cases, 0) + seq![' ']
    }) + seq!['}']
}

/// Whether a match statement can be written.
pub open spec fn match_is_valid(m: MatchStatementView) -> bool {
    &&& is_word(m.variable)
    &&& forall|k: int| 0 <= k < m.cases.len() ==> case_is_valid(#[trigger] m.cases[k])
}

proof fn lemma_skip_lands(s: Seq<char>, i: int, in_comment: bool)
    requires
        0 <= i <= s.len(),
    ensures
        i <= skip_from(s, i, in_comment) <= s.len(),
        skip(s, skip_from(s, i, in_comment)) == skip_from(s, i, in_comment),
    decreases s.len() - i,
{
    if i < s.len() {
        if in_comment {
            lemma_skip_lands(s, i + 1, s[i] != '\n' && s[i] != '\r');
        } else if is_space(s[i]) {
            lemma_skip_lands(s, i + 1, false);
        } else if s[i] == '#' {
            lemma_skip_lands(s, i + 1, true);
        }
    }
}

proof fn lemma_close_paren_at(s: Seq<char>, i: int, p: Seq<char>, j: int, depth: int)
    requires
        stands_at(s, i, p),
        0 <= j <= p.len(),
        close_paren(p, j, depth) is Some,
    ensures
        close_paren(s, i + j, depth) == Some(i + close_paren(p, j, depth)->0),
    decreases p.len() - j,
{
    if j < p.len() {
        assert(s[i + j] == p[j]);
        if p[j] == '(' {
            lemma_close_paren_at(s, i, p, j + 1, depth + 1);
        } else if p[j] == ')' {
            if depth > 1 {
                lemma_close_paren_at(s, i, p, j + 1, depth - 1);
            }
        } else {
            lemma_close_paren_at(s, i, p, j + 1, depth);
        }
    }
}

/// Where the text holds a regex literal at `i`, the literal is read
/// there.
pub proof fn lemma_regex_at(s: Seq<char>, i: int, pattern: Seq<char>)
    requires
        regex_literal(pattern, 0) == Some((pattern, pattern.len() as int)),
        stands_at(s, i, pattern),
    ensures
        regex_literal(s, i) == Some((pattern, i + pattern.len())),
        s[i] == '(',
{
    assert(s[i + 0] == pattern[0]);
    assert(pattern.subrange(0, pattern.len() as int) =~= pattern);
    lemma_close_paren_at(s, i, pattern, 1, 1);
    lemma_stands_text(s, i, pattern);
}

/// Whether an action can end at `end`: a call can end there, and no pipe
/// arrow comes next.
pub open spec fn action_ends(s: Seq<char>, end: int) -> bool {
    &&& call_ends(s, end)
    &&& !has_at(s, skip(s, end), arrow_pipe())
}

/// Where the text holds a written action at `i`, and the action can end
/// behind it, the action is read there.
pub proof fn lemma_action_at(s: Seq<char>, i: int, action: MatchActionView)
    requires
        action_is_valid(action),
        stands_at(s, i, written_action(action)),
        action_ends(s, i + written_action(action).len()),
    ensures
        match_action(s, i) == Some((action, i + written_action(action).len())),
{
    match action {
        MatchActionView::Pipe(p) => {
            lemma_pipe_at(s, i, p);
        },
        MatchActionView::Command(c) => {
            lemma_command_at(s, i, c);
            assert(variable(s, i) is None) by {
                assert(s[i + 0] == written_command(c)[0]);
            }
            assert(pipe_subject(s, i) == Some((PipeSubjectView::Command(c), i + 2 + c.len())));
        },
        MatchActionView::PromptCall(names) => {
            lemma_first_name_stands(s, i, names);
            assert(pipe_subject(s, i) is None);
            assert(command(s, i) is None);
            lemma_call_at(s, i, names);
        },
    }
}

/// Where the text holds a written case at `i`, and the action can end
/// behind it, the case is read there, up to the next token.
pub proof fn lemma_case_at(s: Seq<char>, i: int, case: MatchCaseView)
    requires
        case_is_valid(case),
        stands_at(s, i, written_case(case)),
        action_ends(s, i + written_case(case).len()),
    ensures
        match_case(s, i) == Some((case, skip(s, i + written_case(case).len()))),
        s[i] == '(',
{
    let arrow = seq![' ', '=', '>', ' '];
    let action = written_action(case.action);
    let e = i + case.pattern.len();
    lemma_stands_split(s, i, case.pattern + arrow, action);
    lemma_stands_split(s, i, case.pattern, arrow);
    assert(s[e + 0] == arrow[0] && s[e + 1] == arrow[1] && s[e + 2] == arrow[2] && s[e + 3]
        == arrow[3]);
    lemma_regex_at(s, i, case.pattern);
    lemma_skip_nothing(s, i);
    lemma_skip_space(s, e);
    assert(has_at(s, e + 1, arrow_case())) by {
        assert(s.subrange(e + 1, e + 3) =~= arrow_case());
    }
    lemma_action_starts(s, e + 4, case.action);
    lemma_skip_space(s, e + 3);
    lemma_action_at(s, e + 4, case.action);
}

proof fn lemma_action_starts(s: Seq<char>, i: int, action: MatchActionView)
    requires
        action_is_valid(action),
        stands_at(s, i, written_action(action)),
    ensures
        i < s.len(),
        !is_space(s[i]),
        s[i] != '#',
{
    match action {
        MatchActionView::Pipe(p) => {
            lemma_stands_split(
                s,
                i,
                written_subject(p.subject) + seq![' ', '-', '>', ' '],
                written_call(p.call),
            );
            lemma_stands_split(s, i, written_subject(p.subject), seq![' ', '-', '>', ' ']);
            assert(s[i + 0] == written_subject(p.subject)[0]);
        },
        MatchActionView::Command(c) => {
            assert(s[i + 0] == written_command(c)[0]);
        },
        MatchActionView::PromptCall(names) => {
            lemma_first_name_stands(s, i, names);
        },
    }
}

proof fn lemma_case_starts(s: Seq<char>, i: int, cases: Seq<MatchCaseView>, k: int)
    requires
        0 <= k < cases.len(),
        case_is_valid(cases[k]),
        stands_at(s, i, written_cases(cases, k)),
    ensures
        stands_at(s, i, written_case(cases[k])),
        i < s.len(),
        s[i] == '(',
{
    if k + 1 < cases.len() {
        lemma_stands_split(
            s,
            i,
            written_case(cases[k]) + seq![',', ' '],
            written_cases(cases, k + 1),
        );
        lemma_stands_split(s, i, written_case(cases[k]), seq![',', ' ']);
    }
    let case = cases[k];
    lemma_stands_split(
        s,
        i,
        case.pattern + seq![' ', '=', '>', ' '],
        written_action(case.action),
    );
    lemma_stands_split(s, i, case.pattern, seq![' ', '=', '>', ' ']);
    assert(s[i + 0] == case.pattern[0]);
}

/// Where the text holds the written cases `cases[k..]` at `i`, and behind
/// them a space and the closing brace, the cases are read there.
pub proof fn lemma_cases_at(s: Seq<char>, i: int, cases: Seq<MatchCaseView>, k: int)
    requires
        0 <= k < cases.len(),
        forall|j: int| 0 <= j < cases.len() ==> case_is_valid(#[trigger] cases[j]),
        stands_at(s, i, written_cases(cases, k)),
        stands_at(s, i + written_cases(cases, k).len(), seq![' ', '}']),
    ensures
        match_case(s, i) is Some,
        (match_case(s, i)->0).0 == cases[k],
        more_cases(s, (match_case(s, i)->0).1) == (
            cases.subrange(k + 1, cases.len() as int),
            i + written_cases(cases, k).len() + 1,
        ),
    decreases cases.len() - k,
{
    let case = cases[k];
    let end = i + written_case(case).len();
    let all = i + written_cases(cases, k).len();
    assert(case_is_valid(case));
    lemma_case_starts(s, i, cases, k);
    if k + 1 == cases.len() {
        assert(s[all + 0] == seq![' ', '}'][0]);
        assert(s[all + 1] == seq![' ', '}'][1]);
        lemma_call_ends(s, end);
        lemma_skip_space(s, end);
        assert(!has_at(s, end + 1, arrow_pipe())) by {
            if has_at(s, end + 1, arrow_pipe()) {
                assert(s.subrange(end + 1, end + 3)[0] == arrow_pipe()[0]);
            }
        }
        lemma_case_at(s, i, case);
        assert(cases.subrange(k + 1, cases.len() as int) =~= Seq::<MatchCaseView>::empty());
    } else {
        let rest = written_cases(cases, k + 1);
        lemma_stands_split(s, i, written_case(case) + seq![',', ' '], rest);
        lemma_stands_split(s, i, written_case(case), seq![',', ' ']);
        assert(s[end + 0] == seq![',', ' '][0]);
        assert(s[end + 1] == seq![',', ' '][1]);
        assert(case_is_valid(cases[k + 1]));
        lemma_case_starts(s, end + 2, cases, k + 1);
        lemma_call_ends_before_case(s, end);
        lemma_skip_nothing(s, end);
        assert(!has_at(s, end, arrow_pipe())) by {
            if has_at(s, end, arrow_pipe()) {
                assert(s.subrange(end, end + 2)[0] == arrow_pipe()[0]);
            }
        }
        lemma_case_at(s, i, case);
        lemma_cases_at(s, end + 2, cases, k + 1);
        lemma_skip_nothing(s, end + 2);
        assert(match_case(s, end + 1) == match_case(s, end + 2));
        let next = match_case(s, end + 2)->0;
        lemma_skip_lands(s, end + 2 + written_case(cases[k + 1]).len(), false);
        assert(end < next.1 <= s.len()) by {
            lemma_match_case_bounds(s, end + 2);
        }
        assert(cases.subrange(k + 1, cases.len() as int) =~= seq![cases[k + 1]] + cases.subrange(
            k + 2,
            cases.len() as int,
        ));
    }
}

proof fn lemma_match_case_bounds(s: Seq<char>, i: int)
    requires
        0 <= i <= s.len(),
        match_case(s, i) is Some,
    ensures
        i < (match_case(s, i)->0).1 <= s.len(),
{
    lemma_skip_lands(s, i, false);
    let start = skip(s, i);
    let e = (regex_literal(s, start)->0).1;
    lemma_regex_bounds(s, start);
    lemma_skip_lands(s, e, false);
    let arrow = skip(s, e);
    lemma_skip_lands(s, arrow + 2, false);
    let at = skip(s, arrow + 2);
    lemma_action_bounds(s, at);
    let end = (match_action(s, at)->0).1;
    lemma_skip_lands(s, end, false);
}

proof fn lemma_close_paren_bounds(s: Seq<char>, j: int, depth: int)
    requires
        0 <= j <= s.len(),
        close_paren(s, j, depth) is Some,
    ensures
        j < close_paren(s, j, depth)->0 <= s.len(),
    decreases s.len() - j,
{
    if j < s.len() {
        if s[j] == '(' {
            lemma_close_paren_bounds(s, j + 1, depth + 1);
        } else if s[j] == ')' {
            if depth > 1 {
                lemma_close_paren_bounds(s, j + 1, depth - 1);
            }
        } else {
            lemma_close_paren_bounds(s, j + 1, depth);
        }
    }
}

proof fn lemma_regex_bounds(s: Seq<char>, i: int)
    requires
        0 <= i <= s.len(),
        regex_literal(s, i) is Some,
    ensures
        i < (regex_literal(s, i)->0).1 <= s.len(),
{
    lemma_close_paren_bounds(s, i + 1, 1);
}

proof fn lemma_word_end_bounds(s: Seq<char>, i: int)
    requires
        0 <= i <= s.len(),
    ensures
        i <= word_end(s, i) <= s.len(),
    decreases s.len() - i,
{
    if i < s.len() && is_word_char(s[i]) {
        lemma_word_end_bounds(s, i + 1);
    }
}

proof fn lemma_more_names_bounds(s: Seq<char>, i: int)
    requires
        0 <= i <= s.len(),
    ensures
        i <= more_names(s, i).1 <= s.len(),
    decreases s.len() - i,
{
    if i < s.len() && s[i] == ',' {
        match prompt_name(s, i + 1) {
            Some((name, e)) => {
                if i < e <= s.len() {
                    lemma_more_names_bounds(s, e);
                }
            },
            None => {},
        }
    }
}

proof fn lemma_call_bounds(s: Seq<char>, i: int)
    requires
        0 <= i <= s.len(),
        prompt_call(s, i) is Some,
    ensures
        i < (prompt_call(s, i)->0).1 <= s.len(),
{
    lemma_skip_lands(s, i, false);
    lemma_word_end_bounds(s, skip(s, i));
    lemma_more_names_bounds(s, (prompt_name(s, i)->0).1);
}

proof fn lemma_command_bounds(s: Seq<char>, i: int)
    requires
        0 <= i <= s.len(),
        command(s, i) is Some,
    ensures
        i < (command(s, i)->0).1 <= s.len(),
{
}

proof fn lemma_pipe_bounds(s: Seq<char>, i: int)
    requires
        0 <= i <= s.len(),
        pipe_statement(s, i) is Some,
    ensures
        i < (pipe_statement(s, i)->0).1 <= s.len(),
{
    let e = (pipe_subject(s, i)->0).1;
    if command(s, i) is Some {
        lemma_command_bounds(s, i);
    } else {
        lemma_word_end_bounds(s, i + 1);
    }
    lemma_skip_lands(s, e, false);
    let arrow = skip(s, e);
    lemma_skip_lands(s, arrow + 2, false);
    lemma_call_bounds(s, skip(s, arrow + 2));
}

proof fn lemma_action_bounds(s: Seq<char>, i: int)
    requires
        0 <= i <= s.len(),
        match_action(s, i) is Some,
    ensures
        i < (match_action(s, i)->0).1 <= s.len(),
{
    if pipe_statement(s, i) is Some {
        lemma_pipe_bounds(s, i);
    } else if command(s, i) is Some {
        lemma_command_bounds(s, i);
    } else {
        lemma_call_bounds(s, i);
    }
}

/// Where the text holds a written match statement at `i`, the statement is
/// read there, up to the next token.
pub proof fn lemma_match_at(s: Seq<char>, i: int, m: MatchStatementView)
    requires
        match_is_valid(m),
        stands_at(s, i, written_match(m)),
    ensures
        match_statement(s, i) == Some((m, skip(s, i + written_match(m).len()))),
{
    let head = keyword_match() + seq![' '] + written_variable(m.variable) + seq![' ', '{'];
    let body = if m.cases.len() == 0 {
        Seq::<char>::empty()
    } else {
        seq![' '] + written_cases(m.cases, 0) + seq![' ']
    };
    let name_end = i + 7 + m.variable.len();
    let open = name_end + 1;
    lemma_stands_split(s, i, head + body, seq!['}']);
    lemma_stands_split(s, i, head, body);
    lemma_stands_split(
        s,
        i,
        keyword_match() + seq![' '] + written_variable(m.variable),
        seq![' ', '{'],
    );
    lemma_stands_split(s, i, keyword_match() + seq![' '], written_variable(m.variable));
    lemma_stands_split(s, i, keyword_match(), seq![' ']);
    lemma_stands_text(s, i, keyword_match());
    assert(has_at(s, i, keyword_match()));
    assert(s[i + 5 + 0] == seq![' '][0]);
    assert(s[i + 6 + 0] == written_variable(m.variable)[0]);
    lemma_skip_space(s, i + 5);
    assert(s[name_end + 0] == seq![' ', '{'][0]);
    assert(s[name_end + 1] == seq![' ', '{'][1]);
    lemma_variable_at(s, i + 6, m.variable);
    lemma_skip_space(s, name_end);
    let close = i + head.len() + body.len();
    assert(s[close + 0] == seq!['}'][0]);
    if m.cases.len() == 0 {
        lemma_skip_nothing(s, open + 1);
        assert(regex_span(s, open + 1) is None);
        assert(match_case(s, open + 1) is None);
        assert(match_cases(s, open + 1) == (Seq::<MatchCaseView>::empty(), open + 1));
        assert(m.cases =~= Seq::<MatchCaseView>::empty());
    } else {
        let cases = written_cases(m.cases, 0);
        lemma_stands_split(s, open + 1, seq![' '] + cases, seq![' ']);
        lemma_stands_split(s, open + 1, seq![' '], cases);
        assert(s[open + 1 + 0] == seq![' '][0]);
        assert(s[close - 1 + 0] == seq![' '][0]);
        let tail = seq![' ', '}'];
        assert(stands_at(s, close - 1, tail)) by {
            assert forall|k: int| 0 <= k < tail.len() implies s[close - 1 + k] == #[trigger] tail[k] by {
            }
        }
        assert(case_is_valid(m.cases[0]));
        lemma_case_starts(s, open + 2, m.cases, 0);
        lemma_skip_space(s, open + 1);
        lemma_cases_at(s, open + 2, m.cases, 0);
        lemma_skip_nothing(s, close);
        assert(seq![m.cases[0]] + m.cases.subrange(1, m.cases.len() as int) =~= m.cases);
    }
}

/// A match statement that is written out and parsed is the statement.
pub proof fn lemma_match_round_trip(m: MatchStatementView)
    requires
        match_is_valid(m),
    ensures
        whole(match_statement(written_match(m), 0), written_match(m).len()) == Some(m),
{
    let s = written_match(m);
    lemma_stands_whole(s);
    lemma_match_at(s, 0, m);
    lemma_skip_nothing(s, s.len() as int);
}

/// A statement, written out.
pub open spec fn written_statement(st: StatementView) -> Seq<char> {
    match st {
        StatementView::MatchStatement(m) => written_match(m),
        StatementView::PipeStatement(p) => written_pipe(p),
        StatementView::Command(c) => written_command(c),
    }
}

/// Whether a statement can be written.
pub open spec fn statement_is_valid(st: StatementView) -> bool {
    match st {
        StatementView::MatchStatement(m) => match_is_valid(m),
        StatementView::PipeStatement(p) => pipe_is_valid(p),
        StatementView::Command(c) => !c.contains('`'),
    }
}

proof fn lemma_statement_starts(s: Seq<char>, i: int, st: StatementView)
    requires
        statement_is_valid(st),
        stands_at(s, i, written_statement(st)),
    ensures
        i < s.len(),
        s[i] == 'm' || s[i] == '$' || s[i] == '`',
        s[i] == 'm' <==> st is MatchStatement,
        skip(s, i) == i,
{
    match st {
        StatementView::MatchStatement(m) => {
            let head = keyword_match() + seq![' '] + written_variable(m.variable) + seq![
                ' ',
                '{',
            ];
            let body = if m.cases.len() == 0 {
                Seq::<char>::empty()
            } else {
                seq![' '] + written_cases(m.cases, 0) + seq![' ']
            };
            lemma_stands_split(s, i, head + body, seq!['}']);
            lemma_stands_split(s, i, head, body);
            lemma_stands_split(
                s,
                i,
                keyword_match() + seq![' '] + written_variable(m.variable),
                seq![' ', '{'],
            );
            lemma_stands_split(s, i, keyword_match() + seq![' '], written_variable(m.variable));
            lemma_stands_split(s, i, keyword_match(), seq![' ']);
            assert(s[i + 0] == keyword_match()[0]);
        },
        StatementView::PipeStatement(p) => {
            lemma_stands_split(
                s,
                i,
                written_subject(p.subject) + seq![' ', '-', '>', ' '],
                written_call(p.call),
            );
            lemma_stands_split(s, i, written_subject(p.subject), seq![' ', '-', '>', ' ']);
            assert(s[i + 0] == written_subject(p.subject)[0]);
        },
        StatementView::Command(c) => {
            assert(s[i + 0] == written_command(c)[0]);
        },
    }
    lemma_skip_nothing(s, i);
}

/// Whether a statement can end at `end`: the text ends there or a new line
/// starts, and no pipe arrow comes next.
pub open spec fn statement_ends(s: Seq<char>, end: int) -> bool {
    &&& end == s.len() || s[end] == '\n'
    &&& !has_at(s, skip(s, end), arrow_pipe())
}

/// Where the text holds a written statement at `i`, and the statement can
/// end behind it, the statement is read there, up to the next token.
pub proof fn lemma_statement_at(s: Seq<char>, i: int, st: StatementView)
    requires
        statement_is_valid(st),
        stands_at(s, i, written_statement(st)),
        statement_ends(s, i + written_statement(st).len()),
    ensures
        statement(s, i) == Some((st, skip(s, i + written_statement(st).len()))),
{
    let end = i + written_statement(st).len();
    lemma_statement_starts(s, i, st);
    lemma_skip_lands(s, end, false);
    match st {
        StatementView::MatchStatement(m) => {
            lemma_match_at(s, i, m);
        },
        StatementView::PipeStatement(p) => {
            assert(!has_at(s, i, keyword_match())) by {
                if has_at(s, i, keyword_match()) {
                    assert(s.subrange(i, i + 5)[0] == keyword_match()[0]);
                }
            }
            lemma_call_ends(s, end);
            lemma_pipe_at(s, i, p);
        },
        StatementView::Command(c) => {
            assert(!has_at(s, i, keyword_match())) by {
                if has_at(s, i, keyword_match()) {
                    assert(s.subrange(i, i + 5)[0] == keyword_match()[0]);
                }
            }
            lemma_command_at(s, i, c);
            assert(variable(s, i) is None);
            assert(pipe_subject(s, i) == Some((PipeSubjectView::Command(c), end)));
        },
    }
}

/// The statements from index `k` on, written out, each on a line of its
/// own.
pub open spec fn written_statements(sts: Seq<StatementView>, k: int) -> Seq<char>
    decreases sts.len() - k,
{
    if !(0 <= k < sts.len()) {
        Seq::empty()
    } else {
        written_statement(sts[k]) + seq!['\n'] + written_statements(sts, k + 1)
    }
}

/// Whether every statement of a list can be written.
pub open spec fn statements_are_valid(sts: Seq<StatementView>) -> bool {
    forall|k: int| 0 <= k < sts.len() ==> statement_is_valid(#[trigger] sts[k])
}

/// Whether a list of statements can end at `end`: the text ends there, or
/// the closing brace of a block stands there.
pub open spec fn block_ends(s: Seq<char>, end: int) -> bool {
    0 <= end <= s.len() && (end == s.len() || s[end] == '}')
}

proof fn lemma_no_statement_at_end(s: Seq<char>, end: int)
    requires
        block_ends(s, end),
    ensures
        skip(s, end) == end,
        statement(s, end) is None,
        !has_at(s, end, arrow_pipe()),
{
    lemma_skip_nothing(s, end);
    if has_at(s, end, keyword_match()) {
        assert(s.subrange(end, end + 5)[0] == keyword_match()[0]);
    }
    if has_at(s, end, arrow_pipe()) {
        assert(s.subrange(end, end + 2)[0] == arrow_pipe()[0]);
    }
}

/// Where the text holds the written statements `sts[k..]` at `i`, and the
/// block can end behind them, the statements are read there.
pub proof fn lemma_statements_at(s: Seq<char>, i: int, sts: Seq<StatementView>, k: int)
    requires
        0 <= k <= sts.len(),
        statements_are_valid(sts),
        stands_at(s, i, written_statements(sts, k)),
        block_ends(s, i + written_statements(sts, k).len()),
    ensures
        skip(s, i) == i,
        k < sts.len() ==> statement(s, i) is Some && (statement(s, i)->0).0 == sts[k]
            && more_statements(s, (statement(s, i)->0).1) == (
            sts.subrange(k + 1, sts.len() as int),
            i + written_statements(sts, k).len(),
        ),
        k == sts.len() ==> statement(s, i) is None,
    decreases sts.len() - k,
{
    let all = i + written_statements(sts, k).len();
    if k == sts.len() {
        lemma_no_statement_at_end(s, i);
    } else {
        let st = sts[k];
        let text = written_statement(st);
        let rest = written_statements(sts, k + 1);
        let end = i + text.len();
        assert(statement_is_valid(st));
        lemma_stands_split(s, i, text + seq!['\n'], rest);
        lemma_stands_split(s, i, text, seq!['\n']);
        assert(s[end + 0] == seq!['\n'][0]);
        lemma_statement_starts(s, i, st);
        lemma_statements_at(s, end + 1, sts, k + 1);
        assert(skip(s, end) == end + 1) by {
            assert(skip_from(s, end, false) == skip_from(s, end + 1, false));
        }
        assert(!has_at(s, end + 1, arrow_pipe())) by {
            if k + 1 < sts.len() {
                assert(statement_is_valid(sts[k + 1]));
                lemma_stands_split(
                    s,
                    end + 1,
                    written_statement(sts[k + 1]) + seq!['\n'],
                    written_statements(sts, k + 2),
                );
                lemma_stands_split(s, end + 1, written_statement(sts[k + 1]), seq!['\n']);
                lemma_statement_starts(s, end + 1, sts[k + 1]);
            } else {
                lemma_no_statement_at_end(s, end + 1);
            }
            if has_at(s, end + 1, arrow_pipe()) {
                assert(s.subrange(end + 1, end + 3)[0] == arrow_pipe()[0]);
            }
        }
        lemma_statement_at(s, i, st);
        if k + 1 == sts.len() {
            assert(sts.subrange(k + 1, sts.len() as int) =~= Seq::<StatementView>::empty());
        } else {
            lemma_statement_bounds(s, end + 1);
            assert(sts.subrange(k + 1, sts.len() as int) =~= seq![sts[k + 1]] + sts.subrange(
                k + 2,
                sts.len() as int,
            ));
        }
    }
}

proof fn lemma_match_cases_bounds(s: Seq<char>, i: int)
    requires
        0 <= i <= s.len(),
    ensures
        i <= match_cases(s, i).1 <= s.len(),
{
    lemma_skip_lands(s, i, false);
    let start = skip(s, i);
    lemma_skip_lands(s, start, false);
    if match_case(s, start) is Some {
        lemma_match_case_bounds(s, start);
        lemma_more_cases_bounds(s, (match_case(s, start)->0).1);
        lemma_skip_lands(s, more_cases(s, (match_case(s, start)->0).1).1, false);
    }
}

proof fn lemma_more_cases_bounds(s: Seq<char>, i: int)
    requires
        0 <= i <= s.len(),
    ensures
        i <= more_cases(s, i).1 <= s.len(),
    decreases s.len() - i,
{
    if i < s.len() && s[i] == ',' {
        match match_case(s, i + 1) {
            Some((case, e)) => {
                if i < e <= s.len() {
                    lemma_more_cases_bounds(s, e);
                }
            },
            None => {},
        }
    }
}

proof fn lemma_statement_bounds(s: Seq<char>, i: int)
    requires
        0 <= i <= s.len(),
        statement(s, i) is Some,
    ensures
        i < (statement(s, i)->0).1 <= s.len(),
{
    if match_statement(s, i) is Some {
        lemma_skip_lands(s, i + 5, false);
        let at = skip(s, i + 5);
        lemma_word_end_bounds(s, at + 1);
        let e = (variable(s, at)->0).1;
        lemma_skip_lands(s, e, false);
        let open = skip(s, e);
        lemma_match_cases_bounds(s, open + 1);
        let close = match_cases(s, open + 1).1;
        lemma_skip_lands(s, close + 1, false);
        lemma_skip_lands(s, skip(s, close + 1), false);
    } else if pipe_statement(s, i) is Some {
        lemma_pipe_bounds(s, i);
        lemma_skip_lands(s, (pipe_statement(s, i)->0).1, false);
    } else {
        lemma_command_bounds(s, i);
        lemma_skip_lands(s, (command(s, i)->0).1, false);
    }
}

/// A list of statements that is written out and parsed is the list.
pub proof fn lemma_statements_round_trip(sts: Seq<StatementView>)
    requires
        statements_are_valid(sts),
    ensures
        whole_statements(written_statements(sts, 0)) == Some(sts),
{
    let s = written_statements(sts, 0);
    lemma_stands_whole(s);
    lemma_statements_at(s, 0, sts, 0);
    if sts.len() > 0 {
        assert(seq![sts[0]] + sts.subrange(1, sts.len() as int) =~= sts);
    } else {
        assert(sts =~= Seq::<StatementView>::empty());
    }
}

/// A prompt block without options, written out: the name, and the
/// statements in braces.
pub open spec fn written_prompt(p: PromptView) -> Seq<char> {
    p.name + seq!['{', '\n'] + written_statements(p.statements, 0) + seq!['}']
}

/// Whether a prompt can be written as a block without options: its name is
/// a word, it has no options, and its statements can be written.
pub open spec fn prompt_is_valid(p: PromptView) -> bool {
    &&& is_word(p.name)
    &&& p.options == PromptOptionsView::none()
    &&& statements_are_valid(p.statements)
}

proof fn lemma_empty_header()
    ensures
        header_options(Seq::<char>::empty()) == Ok::<PromptOptionsView, OptionsErrorView>(
            PromptOptionsView::none(),
        ),
{
    let empty = Seq::<char>::empty();
    assert(lines(empty) =~= Seq::<Seq<char>>::empty());
    assert(dedent_lines(lines(empty)) =~= Seq::<Seq<char>>::empty());
    assert(join_lines(Seq::<Seq<char>>::empty()) =~= empty);
    assert(dedent(empty).len() == 0);
}

/// Where the text holds a written prompt at `i`, the prompt is read
/// there, up to the next token; it is not marked as main.
pub proof fn lemma_prompt_at(s: Seq<char>, i: int, p: PromptView)
    requires
        prompt_is_valid(p),
        stands_at(s, i, written_prompt(p)),
    ensures
        prompt(s, i) == Some(
            (
                Ok::<PromptView, OptionsErrorView>(
                    PromptView {
                        is_main: false,
                        name: p.name,
                        options: p.options,
                        statements: p.statements,
                    },
                ),
                skip(s, i + written_prompt(p).len()),
            ),
        ),
        skip(s, i) == i,
        i < i + written_prompt(p).len() <= s.len(),
{
    let body = written_statements(p.statements, 0);
    let open = i + p.name.len();
    let inside = open + 2;
    let close = inside + body.len();
    lemma_stands_split(s, i, p.name + seq!['{', '\n'] + body, seq!['}']);
    lemma_stands_split(s, i, p.name + seq!['{', '\n'], body);
    lemma_stands_split(s, i, p.name, seq!['{', '\n']);
    assert(s[open + 0] == seq!['{', '\n'][0]);
    assert(s[open + 1] == seq!['{', '\n'][1]);
    assert(s[close + 0] == seq!['}'][0]);
    lemma_word_stands(s, i, p.name);
    lemma_stands_text(s, i, p.name);
    assert(position_of(s, open, '{') == open);
    assert(s.subrange(open, open) =~= Seq::<char>::empty());
    lemma_empty_header();
    lemma_statements_at(s, inside, p.statements, 0);
    assert(skip(s, open + 1) == inside) by {
        assert(skip_from(s, open + 1, false) == skip_from(s, inside, false));
    }
    lemma_skip_nothing(s, close);
    if p.statements.len() > 0 {
        assert(seq![p.statements[0]] + p.statements.subrange(1, p.statements.len() as int)
            =~= p.statements);
    } else {
        assert(p.statements =~= Seq::<StatementView>::empty());
    }
    assert(statements(s, inside) == (p.statements, close));
}

/// A prompt block without options that is written out and parsed is the
/// prompt.
pub proof fn lemma_prompt_round_trip(p: PromptView)
    requires
        prompt_is_valid(p),
        !p.is_main,
    ensures
        whole(prompt(written_prompt(p), 0), written_prompt(p).len()) == Some(
            Ok::<PromptView, OptionsErrorView>(p),
        ),
{
    let s = written_prompt(p);
    lemma_stands_whole(s);
    lemma_prompt_at(s, 0, p);
    lemma_skip_nothing(s, s.len() as int);
}

/// The prompts from index `k` on, written out, each block followed by a
/// line feed.
pub open spec fn written_prompts(ps: Seq<PromptView>, k: int) -> Seq<char>
    decreases ps.len() - k,
{
    if !(0 <= k < ps.len()) {
        Seq::empty()
    } else {
        written_prompt(ps[k]) + seq!['\n'] + written_prompts(ps, k + 1)
    }
}

/// A program, written out.
pub open spec fn written_program(ps: Seq<PromptView>) -> Seq<char> {
    written_prompts(ps, 0)
}

/// Whether a program can be written: every prompt can, and the first
/// prompt, and no other, is marked as main.
pub open spec fn program_is_valid(ps: Seq<PromptView>) -> bool {
    forall|k: int|
        0 <= k < ps.len() ==> prompt_is_valid(#[trigger] ps[k]) && (ps[k].is_main <==> k == 0)
}

/// The prompts of a program as they are read, before the first is marked
/// as main.
pub open spec fn as_read(ps: Seq<PromptView>, k: int) -> Seq<PromptResult> {
    Seq::new(
        (ps.len() - k) as nat,
        |j: int|
            Ok(
                PromptView {
                    is_main: false,
                    name: ps[k + j].name,
                    options: ps[k + j].options,
                    statements: ps[k + j].statements,
                },
            ),
    )
}

proof fn lemma_prompts_at(s: Seq<char>, i: int, ps: Seq<PromptView>, k: int)
    requires
        0 <= k <= ps.len(),
        program_is_valid(ps),
        stands_at(s, i, written_prompts(ps, k)),
        i + written_prompts(ps, k).len() == s.len(),
    ensures
        prompts(s, i) == (as_read(ps, k), s.len() as int),
        skip(s, i) == i,
    decreases ps.len() - k,
{
    if k == ps.len() {
        lemma_skip_nothing(s, i);
        assert(word_end(s, i) == i);
        assert(prompt_name(s, i) is None);
        assert(as_read(ps, k) =~= Seq::<PromptResult>::empty());
    } else {
        let p = ps[k];
        let text = written_prompt(p);
        let rest = written_prompts(ps, k + 1);
        let end = i + text.len();
        assert(prompt_is_valid(p));
        lemma_stands_split(s, i, text + seq!['\n'], rest);
        lemma_stands_split(s, i, text, seq!['\n']);
        assert(s[end + 0] == seq!['\n'][0]);
        lemma_prompt_at(s, i, p);
        lemma_prompts_at(s, end + 1, ps, k + 1);
        assert(skip(s, end) == end + 1) by {
            assert(skip_from(s, end, false) == skip_from(s, end + 1, false));
        }
        assert(as_read(ps, k) =~= seq![as_read(ps, k)[0]] + as_read(ps, k + 1));
    }
}

proof fn lemma_none_refused(blocks: Seq<PromptResult>, i: int)
    requires
        0 <= i <= blocks.len(),
        forall|k: int| 0 <= k < blocks.len() ==> (#[trigger] blocks[k]) is Ok,
    ensures
        first_refused(blocks, i) == blocks.len(),
    decreases blocks.len() - i,
{
    if i < blocks.len() {
        lemma_none_refused(blocks, i + 1);
    }
}

/// A program whose prompts have no options, written out and parsed, is the
/// program.
pub proof fn lemma_program_round_trip(ps: Seq<PromptView>)
    requires
        program_is_valid(ps),
    ensures
        program(written_program(ps)) == Some(
            Ok::<Seq<PromptView>, OptionsErrorView>(ps),
        ),
{
    let s = written_program(ps);
    lemma_stands_whole(s);
    lemma_prompts_at(s, 0, ps, 0);
    lemma_skip_nothing(s, s.len() as int);
    let blocks = as_read(ps, 0);
    lemma_none_refused(blocks, 0);
    assert(make_program(blocks)->Ok_0 =~= ps);
}

} // verus!
