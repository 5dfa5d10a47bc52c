//! What holds of every regex literal that the parser lets through: its text
//! is one balanced parenthesised span, and the regex engine accepts it. A
//! literal that misses its closing parenthesis is in no program that was
//! parsed.

use vstd::prelude::*;
use crate::ast::{MatchCaseView, PromptView, StatementView};
use crate::parser::grammar::{
    first_refused, make_program, match_case, match_cases, match_statement, more_cases,
    more_statements, paren_depth, program, prompt, prompts, regex_literal, regex_span, skip,
    statement, statements, whole_statements, lemma_regex_span_is_balanced, PromptResult,
};
use crate::pattern::regex_compiles;

verus! {

/// A balanced literal: it opens with `(`, and its last character is the
/// `)` at which, for the first time, every parenthesis that was opened is
/// closed.
pub open spec fn is_balanced(p: Seq<char>) -> bool {
    &&& p.len() >= 2
    &&& p[0] == '('
    &&& p[p.len() - 1] == ')'
    &&& paren_depth(p, 0, p.len() as int) == 0
    &&& forall|k: int| 0 < k < p.len() ==> paren_depth(p, 0, k) > 0
}

/// A regex literal as the parser lets it through: balanced, and accepted by
/// the regex engine.
pub open spec fn is_literal(p: Seq<char>) -> bool {
    is_balanced(p) && regex_compiles(p)
}

/// Whether every case of a list holds a literal.
pub open spec fn cases_are_sound(cases: Seq<MatchCaseView>) -> bool {
    forall|k: int| 0 <= k < cases.len() ==> is_literal(#[trigger] cases[k].pattern)
}

/// Whether every case of a statement holds a literal.
pub open spec fn statement_is_sound(st: StatementView) -> bool {
    match st {
        StatementView::MatchStatement(m) => cases_are_sound(m.cases),
        _ => true,
    }
}

/// Whether every case of every statement of a list holds a literal.
pub open spec fn statements_are_sound(sts: Seq<StatementView>) -> bool {
    forall|k: int| 0 <= k < sts.len() ==> statement_is_sound(#[trigger] sts[k])
}

/// Whether every case of every prompt of a program holds a literal.
pub open spec fn program_is_sound(ps: Seq<PromptView>) -> bool {
    forall|k: int| 0 <= k < ps.len() ==> statements_are_sound(#[trigger] ps[k].statements)
}

proof fn lemma_depth_of_span(s: Seq<char>, i: int, e: int, k: int)
    requires
        0 <= i <= e <= s.len(),
        0 <= k <= e - i,
    ensures
        paren_depth(s.subrange(i, e), 0, k) == paren_depth(s, i, i + k),
    decreases k,
{
    if k > 0 {
        lemma_depth_of_span(s, i, e, k - 1);
        assert(s.subrange(i, e)[k - 1] == s[i + k - 1]);
    }
}

/// A parenthesis that is never closed opens no literal, wherever it stands.
pub proof fn lemma_unbalanced_regex_fails_at(s: Seq<char>, i: int)
    requires
        0 <= i < s.len(),
        forall|k: int| i < k <= s.len() ==> paren_depth(s, i, k) > 0,
    ensures
        regex_literal(s, i) is None,
{
    if s[i] == '(' {
        lemma_regex_span_is_balanced(s, i);
        if regex_span(s, i) is Some {
            let e = regex_span(s, i)->0;
            assert(paren_depth(s, i, e) > 0);
        }
    }
}

/// The text of every regex literal that is read is a literal.
pub proof fn lemma_regex_literal_is_balanced(s: Seq<char>, i: int)
    requires
        regex_literal(s, i) is Some,
    ensures
        is_literal((regex_literal(s, i)->0).0),
        i < (regex_literal(s, i)->0).1 <= s.len(),
{
    lemma_regex_span_is_balanced(s, i);
    let e = regex_span(s, i)->0;
    let p = s.subrange(i, e);
    assert(p[0] == s[i]);
    assert(p[p.len() - 1] == s[e - 1]);
    lemma_depth_of_span(s, i, e, e - i);
    assert forall|k: int| 0 < k < p.len() implies paren_depth(p, 0, k) > 0 by {
        lemma_depth_of_span(s, i, e, k);
    }
}

proof fn lemma_case_is_sound(s: Seq<char>, i: int)
    requires
        match_case(s, i) is Some,
    ensures
        is_literal((match_case(s, i)->0).0.pattern),
{
    lemma_regex_literal_is_balanced(s, skip(s, i));
}

proof fn lemma_more_cases_are_sound(s: Seq<char>, i: int)
    ensures
        cases_are_sound(more_cases(s, i).0),
    decreases s.len() - i,
{
    if 0 <= i < s.len() && s[i] == ',' {
        match match_case(s, i + 1) {
            Some((case, e)) => {
                if i < e <= s.len() {
                    lemma_case_is_sound(s, i + 1);
                    lemma_more_cases_are_sound(s, e);
                    let all = more_cases(s, i).0;
                    let rest = more_cases(s, e).0;
                    assert forall|k: int| 0 <= k < all.len() implies is_literal(
                        #[trigger] all[k].pattern,
                    ) by {
                        if k > 0 {
                            assert(all[k] == rest[k - 1]);
                        }
                    }
                }
            },
            None => {},
        }
    }
}

proof fn lemma_cases_are_sound(s: Seq<char>, i: int)
    ensures
        cases_are_sound(match_cases(s, i).0),
{
    let start = skip(s, i);
    match match_case(s, start) {
        Some((case, e)) => {
            lemma_case_is_sound(s, start);
            lemma_more_cases_are_sound(s, e);
            let all = match_cases(s, i).0;
            let rest = more_cases(s, e).0;
            assert forall|k: int| 0 <= k < all.len() implies is_literal(#[trigger] all[k].pattern) by {
                if k > 0 {
                    assert(all[k] == rest[k - 1]);
                }
            }
        },
        None => {},
    }
}

/// Every case of a statement that is read holds a literal.
pub proof fn lemma_statement_is_sound(s: Seq<char>, i: int)
    requires
        statement(s, i) is Some,
    ensures
        statement_is_sound((statement(s, i)->0).0),
{
    if match_statement(s, i) is Some {
        let open = skip(s, (crate::parser::grammar::variable(s, skip(s, i + 5))->0).1);
        lemma_cases_are_sound(s, open + 1);
    }
}

proof fn lemma_more_statements_are_sound(s: Seq<char>, i: int)
    ensures
        statements_are_sound(more_statements(s, i).0),
    decreases s.len() - i,
{
    match statement(s, skip(s, i)) {
        Some((st, e)) => {
            if i < e <= s.len() {
                lemma_statement_is_sound(s, skip(s, i));
                lemma_more_statements_are_sound(s, e);
                let all = more_statements(s, i).0;
                let rest = more_statements(s, e).0;
                assert forall|k: int| 0 <= k < all.len() implies statement_is_sound(
                    #[trigger] all[k],
                ) by {
                    if k > 0 {
                        assert(all[k] == rest[k - 1]);
                    }
                }
            }
        },
        None => {},
    }
}

/// Every case of a list of statements that is read holds a literal.
pub proof fn lemma_statements_are_sound(s: Seq<char>, i: int)
    ensures
        statements_are_sound(statements(s, i).0),
{
    let start = skip(s, i);
    match statement(s, start) {
        Some((st, e)) => {
            lemma_statement_is_sound(s, start);
            lemma_more_statements_are_sound(s, e);
            let all = statements(s, i).0;
            let rest = more_statements(s, e).0;
            assert forall|k: int| 0 <= k < all.len() implies statement_is_sound(#[trigger] all[k]) by {
                if k > 0 {
                    assert(all[k] == rest[k - 1]);
                }
            }
        },
        None => {},
    }
}

/// Whether every prompt of a list that was read without refusal is sound.
pub open spec fn blocks_are_sound(blocks: Seq<PromptResult>) -> bool {
    forall|k: int|
        0 <= k < blocks.len() && (#[trigger] blocks[k]) is Ok ==> statements_are_sound(
            blocks[k]->Ok_0.statements,
        )
}

/// Every case of a prompt that is read holds a literal.
pub proof fn lemma_prompt_is_sound(s: Seq<char>, i: int)
    requires
        prompt(s, i) is Some,
        (prompt(s, i)->0).0 is Ok,
    ensures
        statements_are_sound((prompt(s, i)->0).0->Ok_0.statements),
{
    let e = (crate::parser::grammar::prompt_name(s, skip(s, i))->0).1;
    let open = crate::text::position_of(s, e, '{');
    lemma_statements_are_sound(s, skip(s, open + 1));
}

proof fn lemma_prompts_are_sound(s: Seq<char>, i: int)
    ensures
        blocks_are_sound(prompts(s, i).0),
    decreases s.len() - i,
{
    match prompt(s, i) {
        Some((p, e)) => {
            if i < e <= s.len() {
                if p is Ok {
                    lemma_prompt_is_sound(s, i);
                }
                lemma_prompts_are_sound(s, e);
                let all = prompts(s, i).0;
                let rest = prompts(s, e).0;
                assert forall|k: int| 0 <= k < all.len() && (#[trigger] all[k]) is Ok implies statements_are_sound(
                    all[k]->Ok_0.statements,
                ) by {
                    if k > 0 {
                        assert(all[k] == rest[k - 1]);
                    }
                }
            }
        },
        None => {},
    }
}

/// Every case of every prompt of a program that was parsed holds a
/// literal: a program with an unbalanced literal is no program.
pub proof fn lemma_program_is_sound(s: Seq<char>)
    requires
        program(s) matches Some(Ok(_)),
    ensures
        program_is_sound(program(s)->0->Ok_0),
{
    let blocks = prompts(s, skip(s, 0)).0;
    lemma_prompts_are_sound(s, skip(s, 0));
    let ps = make_program(blocks)->Ok_0;
    lemma_no_refusal(blocks, 0);
    assert forall|k: int| 0 <= k < ps.len() implies statements_are_sound(#[trigger] ps[k].statements) by {
        assert(blocks[k] is Ok);
    }
}

proof fn lemma_no_refusal(blocks: Seq<PromptResult>, i: int)
    requires
        0 <= i <= blocks.len(),
    ensures
        i <= first_refused(blocks, i) <= blocks.len(),
        forall|k: int| i <= k < first_refused(blocks, i) ==> (#[trigger] blocks[k]) is Ok,
    decreases blocks.len() - i,
{
    if i < blocks.len() && blocks[i] is Ok {
        lemma_no_refusal(blocks, i + 1);
    }
}

/// Every case of a list of statements that makes up a whole text holds a
/// literal.
pub proof fn lemma_whole_statements_are_sound(s: Seq<char>)
    requires
        whole_statements(s) is Some,
    ensures
        statements_are_sound(whole_statements(s)->0),
{
    lemma_statements_are_sound(s, 0);
}

} // verus!
