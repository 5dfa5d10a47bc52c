//! Parsing by the grammar: one function for each rule, which reads the whole
//! of its input or fails.

use vstd::prelude::*;
use crate::ast::{
    Command, MatchAction, MatchCase, MatchStatement, PipeStatement, PipeSubject, Program, Prompt,
    PromptCall, Statement, Variable,
};
use crate::parser::grammar;
use crate::parser::header::{read_header, OptionsError};
use crate::parser::literals::{
    cases_are_sound, is_literal, lemma_program_is_sound, lemma_prompt_is_sound,
    lemma_regex_literal_is_balanced,
    lemma_statement_is_sound, lemma_whole_statements_are_sound, program_is_sound,
    statement_is_sound, statements_are_sound,
};
use crate::pattern::{compile, regex_source};
use crate::text::{chars_of, find_char, slice_of, string_of};

verus! {

/// The input is not what the rule describes.
#[derive(Clone, Copy, Debug, PartialEq, Eq, Structural)]
pub struct ParseError;

fn is_word(c: char) -> (r: bool)
    ensures
        r == grammar::is_word_char(c),
{
    ('a' <= c && c <= 'z') || ('A' <= c && c <= 'Z') || ('0' <= c && c <= '9') || c == '_'
}

fn scan_word(s: &Vec<char>, i: usize) -> (e: usize)
    requires
        i <= s.len(),
    ensures
        e == grammar::word_end(s@, i as int),
        i <= e <= s.len(),
{
    let mut e: usize = i;
    while e < s.len() && is_word(s[e])
        invariant
            i <= e <= s.len(),
            grammar::word_end(s@, i as int) == grammar::word_end(s@, e as int),
        decreases s.len() - e,
    {
        e += 1;
    }
    e
}

fn skip_blank(s: &Vec<char>, i: usize) -> (e: usize)
    requires
        i <= s.len(),
    ensures
        e == grammar::skip(s@, i as int),
        i <= e <= s.len(),
{
    let mut e: usize = i;
    let mut in_comment = false;
    while e < s.len()
        invariant
            i <= e <= s.len(),
            grammar::skip(s@, i as int) == grammar::skip_from(s@, e as int, in_comment),
        decreases s.len() - e,
    {
        let c = s[e];
        if in_comment {
            in_comment = c != '\n' && c != '\r';
        } else if c == ' ' || c == '\t' || c == '\r' || c == '\n' {
        } else if c == '#' {
            in_comment = true;
        } else {
            return e;
        }
        e += 1;
    }
    e
}

fn scan_parens(s: &Vec<char>, i: usize) -> (r: Option<usize>)
    requires
        i <= s.len(),
    ensures
        match r {
            Some(e) => grammar::regex_span(s@, i as int) == Some(e as int) && i < e <= s.len(),
            None => grammar::regex_span(s@, i as int) is None,
        },
{
    if i >= s.len() || s[i] != '(' {
        return None;
    }
    let mut e: usize = i + 1;
    let mut depth: usize = 1;
    while e < s.len()
        invariant
            i < e <= s.len(),
            1 <= depth <= e - i,
            grammar::regex_span(s@, i as int) == grammar::close_paren(s@, e as int, depth as int),
        decreases s.len() - e,
    {
        let c = s[e];
        if c == '(' {
            depth += 1;
        } else if c == ')' {
            if depth == 1 {
                return Some(e + 1);
            }
            depth -= 1;
        }
        e += 1;
    }
    None
}

fn read_variable(s: &Vec<char>, i: usize) -> (r: Option<(Variable, usize)>)
    requires
        i <= s.len(),
    ensures
        match r {
            Some((v, e)) => grammar::variable(s@, i as int) == Some((v@, e as int)) && i < e
                <= s.len(),
            None => grammar::variable(s@, i as int) is None,
        },
{
    if i >= s.len() || s[i] != '$' {
        return None;
    }
    let e = scan_word(s, i + 1);
    if e > i + 1 {
        Some((Variable(string_of(s, i + 1, e)), e))
    } else {
        None
    }
}

fn read_command(s: &Vec<char>, i: usize) -> (r: Option<(Command, usize)>)
    requires
        i <= s.len(),
    ensures
        match r {
            Some((c, e)) => grammar::command(s@, i as int) == Some((c@, e as int)) && i < e
                <= s.len(),
            None => grammar::command(s@, i as int) is None,
        },
{
    if i >= s.len() || s[i] != '`' {
        return None;
    }
    let e = find_char(s, i + 1, '`');
    if e < s.len() {
        Some((Command(string_of(s, i + 1, e)), e + 1))
    } else {
        None
    }
}

fn read_regex(s: &Vec<char>, i: usize) -> (r: Option<(regex::Regex, usize)>)
    requires
        i <= s.len(),
    ensures
        match r {
            Some((re, e)) => grammar::regex_literal(s@, i as int) == Some(
                (regex_source(re), e as int),
            ) && i < e <= s.len(),
            None => grammar::regex_literal(s@, i as int) is None,
        },
{
    match scan_parens(s, i) {
        None => None,
        Some(e) => {
            let text = string_of(s, i, e);
            match compile(text.as_str()) {
                Ok(re) => Some((re, e)),
                Err(_) => None,
            }
        },
    }
}

fn read_name(s: &Vec<char>, i: usize) -> (r: Option<(String, usize)>)
    requires
        i <= s.len(),
    ensures
        match r {
            Some((n, e)) => grammar::prompt_name(s@, i as int) == Some((n@, e as int)) && i < e
                <= s.len(),
            None => grammar::prompt_name(s@, i as int) is None,
        },
{
    let start = skip_blank(s, i);
    let e = scan_word(s, start);
    if e > start {
        Some((string_of(s, start, e), e))
    } else {
        None
    }
}

fn read_call(s: &Vec<char>, i: usize) -> (r: Option<(PromptCall, usize)>)
    requires
        i <= s.len(),
    ensures
        match r {
            Some((c, e)) => grammar::prompt_call(s@, i as int) == Some((c@, e as int)) && i < e
                <= s.len(),
            None => grammar::prompt_call(s@, i as int) is None,
        },
{
    let (first, after) = match read_name(s, i) {
        Some(found) => found,
        None => { return None; },
    };
    let mut names: Vec<String> = Vec::new();
    names.push(first);
    let mut e: usize = after;
    assert(names.deep_view() =~= seq![first@]);
    loop
        invariant
            i < e <= s.len(),
            grammar::prompt_call(s@, i as int) == Some(
                (
                    names.deep_view() + grammar::more_names(s@, e as int).0,
                    grammar::more_names(s@, e as int).1,
                ),
            ),
        ensures
            grammar::more_names(s@, e as int) == (Seq::<Seq<char>>::empty(), e as int),
        decreases s.len() - e,
    {
        if e >= s.len() || s[e] != ',' {
            break;
        }
        match read_name(s, e + 1) {
            None => { break; },
            Some((name, next)) => {
                let ghost before = names.deep_view();
                names.push(name);
                proof {
                    assert(names.deep_view() =~= before.push(name@));
                    assert(before + (seq![name@] + grammar::more_names(s@, next as int).0)
                        =~= before.push(name@) + grammar::more_names(s@, next as int).0);
                }
                e = next;
            },
        }
    }
    assert(names.deep_view() + Seq::<Seq<char>>::empty() =~= names.deep_view());
    Some((PromptCall { names }, e))
}

fn has_pair(s: &Vec<char>, i: usize, first: char, second: char) -> (r: bool)
    requires
        i <= s.len(),
    ensures
        r == grammar::has_at(s@, i as int, seq![first, second]),
{
    if s.len() - i >= 2 {
        proof {
            let t = s@.subrange(i as int, i + 2);
            assert(t[0] == s@[i as int] && t[1] == s@[i + 1]);
            if s@[i as int] == first && s@[i + 1] == second {
                assert(t =~= seq![first, second]);
            }
        }
        s[i] == first && s[i + 1] == second
    } else {
        false
    }
}

fn has_keyword_match(s: &Vec<char>, i: usize) -> (r: bool)
    requires
        i <= s.len(),
    ensures
        r == grammar::has_at(s@, i as int, grammar::keyword_match()),
{
    if s.len() - i >= 5 {
        proof {
            let t = s@.subrange(i as int, i + 5);
            assert(t[0] == s@[i as int] && t[1] == s@[i + 1] && t[2] == s@[i + 2] && t[3] == s@[i
                + 3] && t[4] == s@[i + 4]);
            if s@[i as int] == 'm' && s@[i + 1] == 'a' && s@[i + 2] == 't' && s@[i + 3] == 'c'
                && s@[i + 4] == 'h' {
                assert(t =~= grammar::keyword_match());
            }
        }
        s[i] == 'm' && s[i + 1] == 'a' && s[i + 2] == 't' && s[i + 3] == 'c' && s[i + 4] == 'h'
    } else {
        false
    }
}

fn read_subject(s: &Vec<char>, i: usize) -> (r: Option<(PipeSubject, usize)>)
    requires
        i <= s.len(),
    ensures
        match r {
            Some((p, e)) => grammar::pipe_subject(s@, i as int) == Some((p@, e as int)) && i < e
                <= s.len(),
            None => grammar::pipe_subject(s@, i as int) is None,
        },
{
    match read_command(s, i) {
        Some((c, e)) => Some((PipeSubject::Command(c), e)),
        None => match read_variable(s, i) {
            Some((v, e)) => Some((PipeSubject::Variable(v), e)),
            None => None,
        },
    }
}

fn read_pipe(s: &Vec<char>, i: usize) -> (r: Option<(PipeStatement, usize)>)
    requires
        i <= s.len(),
    ensures
        match r {
            Some((p, e)) => grammar::pipe_statement(s@, i as int) == Some((p@, e as int)) && i
                < e <= s.len(),
            None => grammar::pipe_statement(s@, i as int) is None,
        },
{
    let (subject, e) = match read_subject(s, i) {
        Some(found) => found,
        None => { return None; },
    };
    let arrow = skip_blank(s, e);
    if !has_pair(s, arrow, '-', '>') {
        return None;
    }
    let start = skip_blank(s, arrow + 2);
    match read_call(s, start) {
        Some((call, end)) => Some((PipeStatement { call, subject }, end)),
        None => None,
    }
}

fn read_action(s: &Vec<char>, i: usize) -> (r: Option<(MatchAction, usize)>)
    requires
        i <= s.len(),
    ensures
        match r {
            Some((a, e)) => grammar::match_action(s@, i as int) == Some((a@, e as int)) && i < e
                <= s.len(),
            None => grammar::match_action(s@, i as int) is None,
        },
{
    match read_pipe(s, i) {
        Some((p, e)) => Some((MatchAction::Pipe(p), e)),
        None => match read_command(s, i) {
            Some((c, e)) => Some((MatchAction::Command(c), e)),
            None => match read_call(s, i) {
                Some((c, e)) => Some((MatchAction::PromptCall(c), e)),
                None => None,
            },
        },
    }
}

fn read_case(s: &Vec<char>, i: usize) -> (r: Option<(MatchCase, usize)>)
    requires
        i <= s.len(),
    ensures
        match r {
            Some((c, e)) => grammar::match_case(s@, i as int) == Some((c@, e as int)) && i < e
                <= s.len(),
            None => grammar::match_case(s@, i as int) is None,
        },
{
    let start = skip_blank(s, i);
    let (regex, e) = match read_regex(s, start) {
        Some(found) => found,
        None => { return None; },
    };
    let arrow = skip_blank(s, e);
    if !has_pair(s, arrow, '=', '>') {
        return None;
    }
    let at = skip_blank(s, arrow + 2);
    match read_action(s, at) {
        Some((action, end)) => {
            let after = skip_blank(s, end);
            Some((MatchCase { regex, action }, after))
        },
        None => None,
    }
}

fn read_cases(s: &Vec<char>, i: usize) -> (r: (Vec<MatchCase>, usize))
    requires
        i <= s.len(),
    ensures
        grammar::match_cases(s@, i as int) == (r.0.deep_view(), r.1 as int),
        i <= r.1 <= s.len(),
{
    let start = skip_blank(s, i);
    let mut cases: Vec<MatchCase> = Vec::new();
    let (first, after) = match read_case(s, start) {
        Some(found) => found,
        None => {
            let end = skip_blank(s, start);
            assert(cases.deep_view() =~= Seq::<crate::ast::MatchCaseView>::empty());
            return (cases, end);
        },
    };
    cases.push(first);
    assert(cases.deep_view() =~= seq![first@]);
    let mut e: usize = after;
    loop
        invariant
            i <= start < e <= s.len(),
            start == grammar::skip(s@, i as int),
            grammar::match_case(s@, start as int) is Some,
            grammar::match_cases(s@, i as int) == (
                cases.deep_view() + grammar::more_cases(s@, e as int).0,
                grammar::skip(s@, grammar::more_cases(s@, e as int).1),
            ),
        ensures
            grammar::more_cases(s@, e as int) == (
                Seq::<crate::ast::MatchCaseView>::empty(),
                e as int,
            ),
        decreases s.len() - e,
    {
        if e >= s.len() || s[e] != ',' {
            break;
        }
        match read_case(s, e + 1) {
            None => { break; },
            Some((case, next)) => {
                let ghost before = cases.deep_view();
                cases.push(case);
                proof {
                    assert(cases.deep_view() =~= before.push(case@));
                    assert(before + (seq![case@] + grammar::more_cases(s@, next as int).0)
                        =~= before.push(case@) + grammar::more_cases(s@, next as int).0);
                }
                e = next;
            },
        }
    }
    assert(cases.deep_view() + Seq::<crate::ast::MatchCaseView>::empty() =~= cases.deep_view());
    let end = skip_blank(s, e);
    (cases, end)
}

fn read_match(s: &Vec<char>, i: usize) -> (r: Option<(MatchStatement, usize)>)
    requires
        i <= s.len(),
    ensures
        match r {
            Some((m, e)) => grammar::match_statement(s@, i as int) == Some((m@, e as int)) && i
                < e <= s.len(),
            None => grammar::match_statement(s@, i as int) is None,
        },
{
    if !has_keyword_match(s, i) {
        return None;
    }
    let at = skip_blank(s, i + 5);
    let (variable, e) = match read_variable(s, at) {
        Some(found) => found,
        None => { return None; },
    };
    let open = skip_blank(s, e);
    if open >= s.len() || s[open] != '{' {
        return None;
    }
    let (cases, close) = read_cases(s, open + 1);
    if close >= s.len() || s[close] != '}' {
        return None;
    }
    let end = skip_blank(s, close + 1);
    Some((MatchStatement { variable, cases }, end))
}

fn read_statement(s: &Vec<char>, i: usize) -> (r: Option<(Statement, usize)>)
    requires
        i <= s.len(),
    ensures
        match r {
            Some((st, e)) => grammar::statement(s@, i as int) == Some((st@, e as int)) && i < e
                <= s.len(),
            None => grammar::statement(s@, i as int) is None,
        },
{
    match read_match(s, i) {
        Some((m, e)) => {
            let end = skip_blank(s, e);
            Some((Statement::MatchStatement(m), end))
        },
        None => match read_pipe(s, i) {
            Some((p, e)) => {
                let end = skip_blank(s, e);
                Some((Statement::PipeStatement(p), end))
            },
            None => match read_command(s, i) {
                Some((c, e)) => {
                    let end = skip_blank(s, e);
                    Some((Statement::Command(c), end))
                },
                None => None,
            },
        },
    }
}

fn read_statements(s: &Vec<char>, i: usize) -> (r: (Vec<Statement>, usize))
    requires
        i <= s.len(),
    ensures
        grammar::statements(s@, i as int) == (r.0.deep_view(), r.1 as int),
        i <= r.1 <= s.len(),
{
    let start = skip_blank(s, i);
    let mut list: Vec<Statement> = Vec::new();
    let (first, after) = match read_statement(s, start) {
        Some(found) => found,
        None => {
            assert(list.deep_view() =~= Seq::<crate::ast::StatementView>::empty());
            return (list, start);
        },
    };
    list.push(first);
    assert(list.deep_view() =~= seq![first@]);
    let mut e: usize = after;
    loop
        invariant
            i <= start < e <= s.len(),
            grammar::statements(s@, i as int) == (
                list.deep_view() + grammar::more_statements(s@, e as int).0,
                grammar::more_statements(s@, e as int).1,
            ),
        ensures
            grammar::more_statements(s@, e as int) == (
                Seq::<crate::ast::StatementView>::empty(),
                e as int,
            ),
        decreases s.len() - e,
    {
        let at = skip_blank(s, e);
        match read_statement(s, at) {
            None => { break; },
            Some((st, next)) => {
                let ghost before = list.deep_view();
                list.push(st);
                proof {
                    assert(list.deep_view() =~= before.push(st@));
                    assert(before + (seq![st@] + grammar::more_statements(s@, next as int).0)
                        =~= before.push(st@) + grammar::more_statements(s@, next as int).0);
                }
                e = next;
            },
        }
    }
    assert(list.deep_view() + Seq::<crate::ast::StatementView>::empty() =~= list.deep_view());
    (list, e)
}

/// What a prompt block that was read stands for.
pub open spec fn block_view(r: Result<Prompt, OptionsError>) -> grammar::PromptResult {
    match r {
        Ok(p) => Ok(p@),
        Err(e) => Err(e@),
    }
}

/// What the outcome of reading a program stands for.
pub open spec fn program_view(r: Result<Program, OptionsError>) -> Result<
    Seq<crate::ast::PromptView>,
    crate::parser::header::OptionsErrorView,
> {
    match r {
        Ok(p) => Ok(p@),
        Err(e) => Err(e@),
    }
}

fn read_prompt(s: &Vec<char>, i: usize) -> (r: Option<(Result<Prompt, OptionsError>, usize)>)
    requires
        i <= s.len(),
    ensures
        match r {
            Some((p, e)) => grammar::prompt(s@, i as int) == Some((block_view(p), e as int)) && i
                < e <= s.len(),
            None => grammar::prompt(s@, i as int) is None,
        },
{
    let start = skip_blank(s, i);
    let (name, e) = match read_name(s, start) {
        Some(found) => found,
        None => { return None; },
    };
    let open = find_char(s, e, '{');
    if open >= s.len() {
        return None;
    }
    let at = skip_blank(s, open + 1);
    let (statements, after) = read_statements(s, at);
    let close = skip_blank(s, after);
    if close >= s.len() || s[close] != '}' {
        return None;
    }
    let end = skip_blank(s, close + 1);
    let header = slice_of(s, e, open);
    let block = match read_header(&header) {
        Ok(options) => Ok(Prompt { is_main: false, name, options, statements }),
        Err(error) => Err(error),
    };
    Some((block, end))
}

proof fn lemma_first_refused_push(blocks: Seq<grammar::PromptResult>, x: grammar::PromptResult, i: int)
    requires
        0 <= i <= blocks.len(),
    ensures
        i <= grammar::first_refused(blocks, i) <= blocks.len(),
        grammar::first_refused(blocks, i) < blocks.len() ==> grammar::first_refused(
            blocks.push(x),
            i,
        ) == grammar::first_refused(blocks, i) && blocks[grammar::first_refused(blocks, i)] is Err,
        grammar::first_refused(blocks, i) == blocks.len() ==> grammar::first_refused(
            blocks.push(x),
            i,
        ) == blocks.len() + if x is Ok {
            1int
        } else {
            0int
        },
        forall|k: int| i <= k < grammar::first_refused(blocks, i) ==> blocks[k] is Ok,
    decreases blocks.len() - i,
{
    let longer = blocks.push(x);
    if i < blocks.len() {
        assert(longer[i] == blocks[i]);
        if blocks[i] is Ok {
            lemma_first_refused_push(blocks, x, i + 1);
        }
    } else {
        assert(longer[i] == x);
        if x is Ok {
            assert(grammar::first_refused(longer, i + 1) == i + 1);
        }
    }
}

fn read_program(s: &Vec<char>) -> (r: Option<Result<Program, OptionsError>>)
    ensures
        match r {
            Some(p) => grammar::program(s@) == Some(program_view(p)),
            None => grammar::program(s@) is None,
        },
{
    let start = skip_blank(s, 0);
    let mut prompts: Vec<Prompt> = Vec::new();
    let mut refused: Option<OptionsError> = None;
    let ghost mut blocks: Seq<grammar::PromptResult> = Seq::empty();
    let mut e: usize = start;
    assert(blocks + grammar::prompts(s@, e as int).0 =~= grammar::prompts(s@, e as int).0);
    loop
        invariant
            start <= e <= s.len(),
            grammar::prompts(s@, start as int) == (
                blocks + grammar::prompts(s@, e as int).0,
                grammar::prompts(s@, e as int).1,
            ),
            0 <= grammar::first_refused(blocks, 0) <= blocks.len(),
            match refused {
                None => {
                    &&& grammar::first_refused(blocks, 0) == blocks.len()
                    &&& prompts.len() == blocks.len()
                    &&& forall|k: int|
                        0 <= k < blocks.len() ==> blocks[k] is Ok && #[trigger] prompts@[k]@
                            == (crate::ast::PromptView {
                            is_main: k == 0,
                            name: blocks[k]->Ok_0.name,
                            options: blocks[k]->Ok_0.options,
                            statements: blocks[k]->Ok_0.statements,
                        })
                },
                Some(error) => {
                    &&& grammar::first_refused(blocks, 0) < blocks.len()
                    &&& blocks[grammar::first_refused(blocks, 0)] == Err::<
                        crate::ast::PromptView,
                        crate::parser::header::OptionsErrorView,
                    >(error@)
                },
            },
        ensures
            grammar::prompts(s@, e as int) == (Seq::<grammar::PromptResult>::empty(), e as int),
        decreases s.len() - e,
    {
        match read_prompt(s, e) {
            None => { break; },
            Some((block, next)) => {
                proof {
                    lemma_first_refused_push(blocks, block_view(block), 0);
                    assert(blocks + (seq![block_view(block)] + grammar::prompts(s@, next as int).0)
                        =~= blocks.push(block_view(block)) + grammar::prompts(s@, next as int).0);
                    blocks = blocks.push(block_view(block));
                }
                match block {
                    Ok(prompt) => {
                        if refused.is_none() {
                            let first = prompts.len() == 0;
                            prompts.push(
                                Prompt {
                                    is_main: first,
                                    name: prompt.name,
                                    options: prompt.options,
                                    statements: prompt.statements,
                                },
                            );
                        }
                    },
                    Err(error) => {
                        if refused.is_none() {
                            refused = Some(error);
                        }
                    },
                }
                e = next;
            },
        }
    }
    assert(blocks + Seq::<grammar::PromptResult>::empty() =~= blocks);
    let end = skip_blank(s, e);
    if end != s.len() {
        return None;
    }
    match refused {
        Some(error) => Some(Err(error)),
        None => {
            let program = Program { prompts };
            assert(program@ =~= grammar::make_program(blocks)->Ok_0);
            Some(Ok(program))
        },
    }
}

/// Parses a whole program. The outer result says whether the text is a
/// program at all; the inner one holds the program, its first prompt marked
/// as main, or the first header that cannot be read as options.
pub fn program(input: &str) -> (r: Result<Result<Program, OptionsError>, ParseError>)
    ensures
        match r {
            Ok(p) => grammar::program(input@) == Some(program_view(p)),
            Err(_) => grammar::program(input@) is None,
        },
        r matches Ok(Ok(p)) ==> crate::ast::main_is_first(p@),
        r matches Ok(Ok(p)) ==> program_is_sound(p@),
{
    let s = chars_of(input);
    match read_program(&s) {
        Some(p) => {
            proof {
                if p is Ok {
                    lemma_program_is_sound(s@);
                }
            }
            Ok(p)
        },
        None => Err(ParseError),
    }
}

/// Parses one prompt block that makes up the whole input.
pub fn prompt(input: &str) -> (r: Result<Result<Prompt, OptionsError>, ParseError>)
    ensures
        match r {
            Ok(p) => grammar::whole(grammar::prompt(input@, 0), input@.len()) == Some(
                block_view(p),
            ),
            Err(_) => grammar::whole(grammar::prompt(input@, 0), input@.len()) is None,
        },
        r matches Ok(Ok(p)) ==> statements_are_sound(p@.statements),
{
    let s = chars_of(input);
    match read_prompt(&s, 0) {
        Some((p, e)) => if e == s.len() {
            proof {
                if p is Ok {
                    lemma_prompt_is_sound(s@, 0);
                }
            }
            Ok(p)
        } else {
            Err(ParseError)
        },
        None => Err(ParseError),
    }
}

/// Parses a list of statements that makes up the whole input.
pub fn statements(input: &str) -> (r: Result<Vec<Statement>, ParseError>)
    ensures
        match r {
            Ok(list) => grammar::whole_statements(input@) == Some(list.deep_view()),
            Err(_) => grammar::whole_statements(input@) is None,
        },
        r matches Ok(list) ==> statements_are_sound(list.deep_view()),
{
    let s = chars_of(input);
    let (list, e) = read_statements(&s, 0);
    if e == s.len() {
        proof {
            lemma_whole_statements_are_sound(s@);
        }
        Ok(list)
    } else {
        Err(ParseError)
    }
}

/// Parses one statement that makes up the whole input.
pub fn statement(input: &str) -> (r: Result<Statement, ParseError>)
    ensures
        match r {
            Ok(st) => grammar::whole(grammar::statement(input@, 0), input@.len()) == Some(st@),
            Err(_) => grammar::whole(grammar::statement(input@, 0), input@.len()) is None,
        },
        r matches Ok(st) ==> statement_is_sound(st@),
{
    let s = chars_of(input);
    match read_statement(&s, 0) {
        Some((st, e)) => if e == s.len() {
            proof {
                lemma_statement_is_sound(s@, 0);
            }
            Ok(st)
        } else {
            Err(ParseError)
        },
        None => Err(ParseError),
    }
}

/// Parses one match statement that makes up the whole input.
pub fn match_statement(input: &str) -> (r: Result<MatchStatement, ParseError>)
    ensures
        match r {
            Ok(m) => grammar::whole(grammar::match_statement(input@, 0), input@.len()) == Some(
                m@,
            ),
            Err(_) => grammar::whole(grammar::match_statement(input@, 0), input@.len()) is None,
        },
        r matches Ok(m) ==> cases_are_sound(m@.cases),
{
    let s = chars_of(input);
    match read_match(&s, 0) {
        Some((m, e)) => if e == s.len() {
            proof {
                lemma_statement_is_sound(s@, 0);
            }
            Ok(m)
        } else {
            Err(ParseError)
        },
        None => Err(ParseError),
    }
}

/// Parses one pipe statement that makes up the whole input.
pub fn pipe_statement(input: &str) -> (r: Result<PipeStatement, ParseError>)
    ensures
        match r {
            Ok(p) => grammar::whole(grammar::pipe_statement(input@, 0), input@.len()) == Some(
                p@,
            ),
            Err(_) => grammar::whole(grammar::pipe_statement(input@, 0), input@.len()) is None,
        },
{
    let s = chars_of(input);
    match read_pipe(&s, 0) {
        Some((p, e)) => if e == s.len() {
            Ok(p)
        } else {
            Err(ParseError)
        },
        None => Err(ParseError),
    }
}

/// Parses one prompt call that makes up the whole input.
pub fn prompt_call(input: &str) -> (r: Result<PromptCall, ParseError>)
    ensures
        match r {
            Ok(c) => grammar::whole(grammar::prompt_call(input@, 0), input@.len()) == Some(c@),
            Err(_) => grammar::whole(grammar::prompt_call(input@, 0), input@.len()) is None,
        },
{
    let s = chars_of(input);
    match read_call(&s, 0) {
        Some((c, e)) => if e == s.len() {
            Ok(c)
        } else {
            Err(ParseError)
        },
        None => Err(ParseError),
    }
}

/// Parses one prompt name that makes up the whole input.
pub fn prompt_name(input: &str) -> (r: Result<String, ParseError>)
    ensures
        match r {
            Ok(n) => grammar::whole(grammar::prompt_name(input@, 0), input@.len()) == Some(n@),
            Err(_) => grammar::whole(grammar::prompt_name(input@, 0), input@.len()) is None,
        },
{
    let s = chars_of(input);
    match read_name(&s, 0) {
        Some((n, e)) => if e == s.len() {
            Ok(n)
        } else {
            Err(ParseError)
        },
        None => Err(ParseError),
    }
}

/// Parses one command literal that makes up the whole input.
pub fn command(input: &str) -> (r: Result<Command, ParseError>)
    ensures
        match r {
            Ok(c) => grammar::whole(grammar::command(input@, 0), input@.len()) == Some(c@),
            Err(_) => grammar::whole(grammar::command(input@, 0), input@.len()) is None,
        },
{
    let s = chars_of(input);
    match read_command(&s, 0) {
        Some((c, e)) => if e == s.len() {
            Ok(c)
        } else {
            Err(ParseError)
        },
        None => Err(ParseError),
    }
}

/// Parses one variable that makes up the whole input.
pub fn variable(input: &str) -> (r: Result<Variable, ParseError>)
    ensures
        match r {
            Ok(v) => grammar::whole(grammar::variable(input@, 0), input@.len()) == Some(v@),
            Err(_) => grammar::whole(grammar::variable(input@, 0), input@.len()) is None,
        },
{
    let s = chars_of(input);
    match read_variable(&s, 0) {
        Some((v, e)) => if e == s.len() {
            Ok(v)
        } else {
            Err(ParseError)
        },
        None => Err(ParseError),
    }
}

/// Parses one regex literal that makes up the whole input, and compiles it.
pub fn regex(input: &str) -> (r: Result<regex::Regex, ParseError>)
    ensures
        match r {
            Ok(re) => grammar::whole(grammar::regex_literal(input@, 0), input@.len()) == Some(
                regex_source(re),
            ),
            Err(_) => grammar::whole(grammar::regex_literal(input@, 0), input@.len()) is None,
        },
        r matches Ok(re) ==> is_literal(regex_source(re)),
{
    let s = chars_of(input);
    match read_regex(&s, 0) {
        Some((re, e)) => if e == s.len() {
            proof {
                lemma_regex_literal_is_balanced(s@, 0);
            }
            Ok(re)
        } else {
            Err(ParseError)
        },
        None => Err(ParseError),
    }
}

} // verus!
