use prompt::ast::{
    Command, MatchAction, MatchCase, MatchStatement, PipeStatement, PipeSubject, Program, Prompt,
    PromptCall, PromptOptions, Statement, Variable,
};
use prompt::chat::{ChatMessage, ChatRole};
use prompt::eval::{
    evaluate_command, evaluate_match_statement, evaluate_statement, extract_state, find_case,
    join_results, resolve_variable, shell_command, Action, AfterRun, Branch, Decision, Evaluate,
    EvaluateConfig, EvaluateError, EvaluateState, EvaluateVars, Resume, ShellCommand, Step,
};
use prompt::parser::parse;
use regex::Regex;

fn config(quiet: bool) -> EvaluateConfig {
    EvaluateConfig {
        api_key: String::new(),
        prompt_path: String::from("/work/program.pr"),
        prompt_dir: String::from("/work"),
        quiet,
    }
}

fn state(ai: &str, user: &str) -> EvaluateState {
    EvaluateState {
        current_prompt_name: String::from("caller"),
        vars: EvaluateVars { ai: ai.into(), user: user.into() },
    }
}

fn pair(name: &str, value: &str) -> (String, String) {
    (name.to_string(), value.to_string())
}

fn message(role: ChatRole, content: &str) -> ChatMessage {
    ChatMessage { role, content: content.to_string(), tokens: 0 }
}

#[test]
fn evaluate_match_statement_with_named_group() {
    let state = &EvaluateState {
        current_prompt_name: String::new(),
        vars: EvaluateVars {
            user: "".into(),
            ai: "Yes. Something else".into()
        }
    };
    let statement = &MatchStatement {
        variable: Variable("AI".into()),
        cases: vec![
            MatchCase {
                regex: Regex::new("(?i:yes[^a-z]*(?P<FOOBAR>.+))").unwrap(),
                action: MatchAction::Command(Command("echo $FOOBAR".into()))
            }
        ]
    };

    let step = evaluate_match_statement(&config(false), state, statement).unwrap();
    assert_eq!(step, Step::Run {
        shell: ShellCommand {
            command: "echo $FOOBAR".into(),
            env: vec![
                pair("AI", "Yes. Something else"),
                pair("USER", ""),
                pair("M0", "Yes. Something else"),
                pair("M1", "Something else"),
                pair("FOOBAR", "Something else"),
            ],
            dir: "/work".into(),
        },
        then: AfterRun::Print,
    });
}

#[test]
fn evaluate_match_statement_with_position_group() {
    let state = &EvaluateState {
        current_prompt_name: String::new(),
        vars: EvaluateVars {
            user: "".into(),
            ai: "Yes. Something else".into()
        }
    };
    let statement = &MatchStatement {
        variable: Variable("AI".into()),
        cases: vec![
            MatchCase {
                regex: Regex::new("((?i)yes[^a-z]*(.+))").unwrap(),
                action: MatchAction::Command(Command("echo $M2".into()))
            }
        ]
    };

    let step = evaluate_match_statement(&config(false), state, statement).unwrap();
    assert_eq!(step, Step::Run {
        shell: ShellCommand {
            command: "echo $M2".into(),
            env: vec![
                pair("AI", "Yes. Something else"),
                pair("USER", ""),
                pair("M0", "Yes. Something else"),
                pair("M1", "Yes. Something else"),
                pair("M2", "Something else"),
            ],
            dir: "/work".into(),
        },
        then: AfterRun::Print,
    });
}

#[test]
fn first_match_wins() {
    let cases = vec![
        MatchCase {
            regex: Regex::new("(?i:^yes)").unwrap(),
            action: MatchAction::Command(Command("A".into())),
        },
        MatchCase {
            regex: Regex::new("(?i:.*)").unwrap(),
            action: MatchAction::Command(Command("B".into())),
        },
    ];
    let (index, groups) = find_case(&cases, "Yes. Something else").unwrap();
    assert_eq!(index, 0);
    assert_eq!(groups.len(), 1);
    assert_eq!(groups[0].text.as_deref(), Some("Yes"));

    let (index, _) = find_case(&cases, "No.").unwrap();
    assert_eq!(index, 1);

    let statement = MatchStatement { variable: Variable("AI".into()), cases };
    let step =
        evaluate_match_statement(&config(true), &state("Yes. Something else", ""), &statement)
            .unwrap();
    match step {
        Step::Run { shell, then } => {
            assert_eq!(shell.command, "A");
            assert_eq!(then, AfterRun::Print);
        },
        other => panic!("{:?}", other),
    }
}

#[test]
fn match_without_matching_case_does_nothing() {
    let statement = parse::match_statement("match $USER { (^no) => `never` }").unwrap();
    assert_eq!(
        evaluate_match_statement(&config(false), &state("anything", "yes"), &statement),
        Ok(Step::Nothing)
    );
    assert!(find_case(&statement.cases, "yes").is_none());
}

#[test]
fn undeclared_variable_is_an_error() {
    let statement = parse::match_statement("match $LINE { (a) => `x` }").unwrap();
    assert_eq!(
        evaluate_match_statement(&config(false), &state("a", "a"), &statement),
        Err(EvaluateError::UndeclaredVariable("LINE".into()))
    );
    let pipe = parse::statement("$LINE -> next").unwrap();
    assert_eq!(
        evaluate_statement(&config(false), &state("a", "a"), &pipe),
        Err(EvaluateError::UndeclaredVariable("LINE".into()))
    );
    assert_eq!(resolve_variable(&state("x", "y"), "AI"), Ok("x".to_string()));
    assert_eq!(resolve_variable(&state("x", "y"), "USER"), Ok("y".to_string()));
    assert_eq!(
        resolve_variable(&state("x", "y"), "ai"),
        Err(EvaluateError::UndeclaredVariable("ai".into()))
    );
}

#[test]
fn prompt_call_action_appends_group_one() {
    let statement = parse::match_statement("match $AI { ((?i)^yes, (.*)) => one, two }").unwrap();
    assert_eq!(
        evaluate_match_statement(&config(false), &state("Yes, go on", ""), &statement),
        Ok(Step::Call {
            call: PromptCall { names: vec!["one".into(), "two".into()] },
            append: "Yes, go on".into(),
        })
    );
    let without_group = parse::match_statement("match $AI { (?i:^yes) => one }").unwrap();
    assert_eq!(
        evaluate_match_statement(&config(false), &state("Yes, go on", ""), &without_group),
        Ok(Step::Call { call: PromptCall { names: vec!["one".into()] }, append: String::new() })
    );
}

#[test]
fn pipe_statement_reads_variable_or_runs_command() {
    let from_variable = parse::statement("$USER -> next").unwrap();
    assert_eq!(
        evaluate_statement(&config(false), &state("  the ai  ", "  the user  "), &from_variable),
        Ok(Step::Call {
            call: PromptCall { names: vec!["next".into()] },
            append: "  the user  ".into(),
        })
    );
    let from_command = parse::statement("`date` -> next, other").unwrap();
    assert_eq!(
        evaluate_statement(&config(false), &state("a", "u"), &from_command),
        Ok(Step::Run {
            shell: ShellCommand {
                command: "date".into(),
                env: vec![pair("AI", "a"), pair("USER", "u")],
                dir: "/work".into(),
            },
            then: AfterRun::Pipe(PromptCall { names: vec!["next".into(), "other".into()] }),
        })
    );
    let piped_match = parse::match_statement("match $AI { (a(?P<rest>.*)) => `wc` -> count }")
        .unwrap();
    assert_eq!(
        evaluate_match_statement(&config(false), &state("abc", ""), &piped_match),
        Ok(Step::Run {
            shell: ShellCommand {
                command: "wc".into(),
                env: vec![
                    pair("AI", "abc"),
                    pair("USER", ""),
                    pair("M0", "abc"),
                    pair("M1", "abc"),
                    pair("M2", "bc"),
                    pair("rest", "bc"),
                ],
                dir: "/work".into(),
            },
            then: AfterRun::Pipe(PromptCall { names: vec!["count".into()] }),
        })
    );
}

#[test]
fn group_that_took_no_part_sets_no_variable() {
    let cases = vec![MatchCase {
        regex: Regex::new("(a)|(?P<other>b)").unwrap(),
        action: MatchAction::Command(Command("x".into())),
    }];
    let (_, groups) = find_case(&cases, "b").unwrap();
    let shell = shell_command(&config(false), &state("b", ""), &Command("x".into()), Some(&groups));
    assert_eq!(
        shell.env,
        vec![pair("AI", "b"), pair("USER", ""), pair("M0", "b"), pair("M2", "b"), pair("other", "b")]
    );
}

#[test]
fn shell_invocation_by_platform() {
    let shell = shell_command(&config(false), &state("a", "u"), &Command("ls -la".into()), None);
    assert_eq!(shell.invocation(false), ("sh".to_string(), vec!["-c".to_string(), "ls -la".to_string()]));
    assert_eq!(shell.invocation(true), ("cmd".to_string(), vec!["/C".to_string(), "ls -la".to_string()]));
}

#[test]
fn command_with_stderr_fails_whatever_it_printed() {
    assert_eq!(evaluate_command("  out \n", ""), Ok("out".to_string()));
    assert_eq!(evaluate_command("  out \n", " \n\t"), Ok("out".to_string()));
    assert_eq!(
        evaluate_command("out", "\n warning: x \n"),
        Err(EvaluateError::Command("warning: x".into()))
    );
    assert_eq!(evaluate_command("", ""), Ok(String::new()));
}

#[test]
fn state_is_what_each_role_said_last() {
    let messages = vec![
        message(ChatRole::System, "SYSTEM: be kind"),
        message(ChatRole::User, "USER: first"),
        message(ChatRole::Ai, "AI: one"),
        message(ChatRole::User, "bob:   second: part"),
        message(ChatRole::Ai, "no label here"),
    ];
    let state = extract_state("bob", &messages).unwrap();
    assert_eq!(state.current_prompt_name, "bob");
    assert_eq!(state.vars.ai, "no label here");
    assert_eq!(state.vars.user, "second: part");

    let only_ai = vec![message(ChatRole::Ai, "mom: hello")];
    let state = extract_state("mom", &only_ai).unwrap();
    assert_eq!(state.vars.ai, "hello");
    assert_eq!(state.vars.user, "");

    assert_eq!(extract_state("mom", &vec![]), Err(EvaluateError::CommandExited));
}

fn animal_program() -> Program {
    parse::program(
        "
mom
    eager: true
    history: false
    direction: Write the next line.
    description: A tired mother.
{
    $AI -> dad, toddler
}
dad { `echo hi` }
toddler { match $USER { (?i:(mom)) => mom } }
",
    ).unwrap().unwrap()
}

#[test]
fn eval_starts_with_the_main_prompt() {
    let evaluate = Evaluate::new(animal_program(), config(true));
    let start = evaluate.eval().unwrap();
    assert_eq!(start.prompt, 0);
    let request = start.request;
    assert_eq!(request.completion.ai_responds_first, Some(true));
    assert_eq!(request.completion.no_context, Some(true));
    assert_eq!(request.completion.name.as_deref(), Some("mom"));
    assert_eq!(request.completion.once, Some(true));
    assert_eq!(request.completion.prefix_ai.as_deref(), Some("mom"));
    assert_eq!(request.completion.prefix_user, None);
    assert_eq!(request.completion.append, None);
    assert_eq!(request.completion.stream, Some(false));
    assert_eq!(request.completion.quiet, Some(true));
    assert_eq!(request.completion.overwrite, None);
    assert_eq!(request.completion.response_count, None);
    assert_eq!(request.completion.tokens_max, None);
    assert_eq!(request.system.as_deref(), Some("A tired mother."));
    assert_eq!(request.direction.as_deref(), Some("Write the next line."));
    assert_eq!(request.provider, None);

    let empty = Evaluate::new(Program { prompts: vec![] }, config(true));
    assert_eq!(empty.eval(), None);
}

#[test]
fn fan_out_runs_every_named_prompt() {
    let evaluate = Evaluate::new(animal_program(), config(true));
    let caller = state("ai text", "user text");
    let call = PromptCall { names: vec!["dad".into(), "toddler".into()] };
    let calls = evaluate.evaluate_prompt_call(&caller, &call, "hello").unwrap();
    assert_eq!(calls.len(), 2);
    assert_eq!(calls[0].prompt, 1);
    assert_eq!(calls[1].prompt, 2);
    for (i, spawn) in calls.iter().enumerate() {
        let name = if i == 0 { "dad" } else { "toddler" };
        assert_eq!(spawn.request.completion.name.as_deref(), Some(name));
        assert_eq!(spawn.request.completion.prefix_ai.as_deref(), Some(name));
        assert_eq!(spawn.request.completion.prefix_user.as_deref(), Some("caller"));
        assert_eq!(spawn.request.completion.append.as_deref(), Some("hello"));
        assert_eq!(spawn.request.completion.ai_responds_first, Some(false));
        assert_eq!(spawn.request.completion.once, Some(true));
        assert_eq!(spawn.request.completion.no_context, None);
        assert_eq!(spawn.request.completion.stream, Some(false));
        assert_eq!(spawn.request.completion.quiet, Some(true));
        assert_eq!(spawn.request.system, None);
        assert_eq!(spawn.request.direction, None);
    }

    let missing = PromptCall { names: vec!["dad".into(), "uncle".into(), "aunt".into()] };
    assert_eq!(
        evaluate.evaluate_prompt_call(&caller, &missing, "hello"),
        Err(EvaluateError::MissingPrompt("uncle".into()))
    );
}

#[test]
fn fan_out_reports_the_failure_of_one_branch() {
    assert_eq!(join_results(&vec![Branch::Done, Branch::Done]), Ok(()));
    assert_eq!(join_results(&vec![]), Ok(()));
    assert_eq!(
        join_results(&vec![Branch::Done, Branch::Failed(EvaluateError::Command("boom".into()))]),
        Err(EvaluateError::Command("boom".into()))
    );
    assert_eq!(
        join_results(&vec![Branch::Failed(EvaluateError::CommandExited), Branch::Done]),
        Err(EvaluateError::CommandExited)
    );
    assert_eq!(
        join_results(&vec![
            Branch::Failed(EvaluateError::CommandExited),
            Branch::Panicked("task 7 panicked".into()),
            Branch::Failed(EvaluateError::Command("x".into())),
        ]),
        Err(EvaluateError::JoinError("task 7 panicked".into()))
    );
}

#[test]
fn invocation_walks_its_statements_in_order() {
    let program = parse::program(
        "
main {
    match $AI { (^never$) => `skipped` }
    `first`
    `second` -> other
    $USER -> other
}
other { }
",
    ).unwrap().unwrap();
    let evaluate = Evaluate::new(program.clone(), config(false));
    let prompt = &program.prompts[0];
    let messages = vec![message(ChatRole::User, "USER: hi"), message(ChatRole::Ai, "AI: hello")];

    let (shell, then, resume) = match evaluate.evaluate_prompt(prompt, &messages) {
        Action::Run { shell, then, resume } => (shell, then, resume),
        other => panic!("{:?}", other),
    };
    assert_eq!(shell.command, "first");
    assert_eq!(shell.env, vec![pair("AI", "hello"), pair("USER", "hi")]);
    assert_eq!(shell.dir, "/work");
    assert_eq!(then, AfterRun::Print);
    assert_eq!(resume.next, 2);
    assert_eq!(resume.state.current_prompt_name, "main");

    let Decision { print, action } = evaluate.after_command(prompt, resume, &then, " one \n", "");
    assert_eq!(print.as_deref(), Some("one"));
    let (shell, then, resume) = match action {
        Action::Run { shell, then, resume } => (shell, then, resume),
        other => panic!("{:?}", other),
    };
    assert_eq!(shell.command, "second");
    assert_eq!(then, AfterRun::Pipe(PromptCall { names: vec!["other".into()] }));
    assert_eq!(resume.next, 3);

    let Decision { print, action } = evaluate.after_command(prompt, resume, &then, "two\n", "");
    assert_eq!(print, None);
    let (calls, resume) = match action {
        Action::Spawn { calls, resume } => (calls, resume),
        other => panic!("{:?}", other),
    };
    assert_eq!(calls.len(), 1);
    assert_eq!(calls[0].prompt, 1);
    assert_eq!(calls[0].request.completion.append.as_deref(), Some("two"));
    assert_eq!(calls[0].request.completion.prefix_user.as_deref(), Some("main"));
    assert_eq!(resume.next, 3);

    let (calls, resume) = match evaluate.after_call(prompt, resume, &vec![Branch::Done]) {
        Action::Spawn { calls, resume } => (calls, resume),
        other => panic!("{:?}", other),
    };
    assert_eq!(calls[0].request.completion.append.as_deref(), Some("hi"));
    assert_eq!(resume.next, 4);

    assert_eq!(
        evaluate.after_call(prompt, resume.clone(), &vec![Branch::Done]),
        Action::Finish(Ok(()))
    );
    assert_eq!(
        evaluate.after_call(
            prompt,
            resume,
            &vec![Branch::Failed(EvaluateError::MissingPrompt("x".into()))]
        ),
        Action::Finish(Err(EvaluateError::MissingPrompt("x".into())))
    );
}

#[test]
fn invocation_ends_on_the_first_error() {
    let program = parse::program("main { `first` \n $AI -> nobody \n `never` }").unwrap().unwrap();
    let quiet = Evaluate::new(program.clone(), config(true));
    let prompt = &program.prompts[0];
    assert_eq!(quiet.evaluate_prompt(prompt, &vec![]), Action::Finish(Err(EvaluateError::CommandExited)));

    let messages = vec![message(ChatRole::Ai, "AI: hello")];
    let resume = match quiet.evaluate_prompt(prompt, &messages) {
        Action::Run { resume, .. } => resume,
        other => panic!("{:?}", other),
    };
    let failed = quiet.after_command(prompt, resume.clone(), &AfterRun::Print, "out", "bad");
    assert_eq!(
        failed,
        Decision { print: None, action: Action::Finish(Err(EvaluateError::Command("bad".into()))) }
    );
    let next = quiet.after_command(prompt, resume, &AfterRun::Print, "out", "");
    assert_eq!(
        next,
        Decision {
            print: None,
            action: Action::Finish(Err(EvaluateError::MissingPrompt("nobody".into()))),
        }
    );
    let done = quiet.proceed(
        prompt,
        Resume { state: state("a", "b"), next: 7 },
    );
    assert_eq!(done, Action::Finish(Ok(())));
}

#[test]
fn invocation_can_start_in_the_middle() {
    let statements = vec![
        Statement::Command(Command("ls".into())),
        Statement::PipeStatement(PipeStatement {
            call: PromptCall { names: vec!["p".into(), "p".into()] },
            subject: PipeSubject::Variable(Variable("AI".into())),
        }),
    ];
    let prompt = Prompt {
        is_main: true,
        name: "p".into(),
        options: PromptOptions::default(),
        statements,
    };
    let evaluate = Evaluate::new(Program { prompts: vec![prompt.clone()] }, config(false));
    match evaluate.proceed(&prompt, Resume { state: state("x", "y"), next: 1 }) {
        Action::Spawn { calls, resume } => {
            assert_eq!(calls.len(), 2);
            assert_eq!(calls[0], calls[1]);
            assert_eq!(calls[0].prompt, 0);
            assert_eq!(calls[0].request.completion.append.as_deref(), Some("x"));
            assert_eq!(resume.next, 2);
            assert_eq!(resume.state, state("x", "y"));
        },
        other => panic!("{:?}", other),
    }
}

#[test]
fn a_copy_of_a_match_statement_is_equal_to_it() {
    let statement = parse::match_statement("match $AI { (a+) => `x`, (b) => y }").unwrap();
    let copy = statement.clone();
    assert_eq!(copy, statement);
    assert_eq!(copy.cases[0].regex.as_str(), "(a+)");
    assert!(copy.cases[0].regex.is_match("caat"));
    let other = parse::match_statement("match $AI { (a*) => `x`, (b) => y }").unwrap();
    assert_ne!(other, statement);
}
