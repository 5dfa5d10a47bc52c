use prompt::chat::{
    labotomize, opening_text, transcript_messages, ChatCommand, ChatError, ChatMessage,
    ChatOptions, ChatProvider, ChatRole, ChatTranscriptionError,
};
use prompt::completion::{CompletionFile, CompletionOptions};
use prompt::openai::chat::{
    get_max_allowed_tokens, get_max_tokens_for_model, handle_stream_message, label_message,
    label_reply, ChatMessageDelta, OpenAIChatCommand, StreamMessageState,
};

fn file(transcript: &str) -> CompletionFile<ChatCommand> {
    CompletionFile { overrides: ChatCommand::default(), transcript: transcript.to_string() }
}

fn upper_bound(tokens_max: usize, tokens_balance: f32) -> usize {
    (tokens_max as f32 * tokens_balance).floor() as usize
}

#[test]
fn transcript_with_multiple_lines() {
    let system = String::from("You're a duck. Say quack.");
    let file = file(
        "USER: hey\n\
         AI: I'm a multimodel super AI hell bent on destroying the world.\n\
         How can I help you today?",
    );
    let options = ChatOptions {
        system: system.clone(),
        file,
        tokens_max: Some(4096),
        ..ChatOptions::default()
    };
    assert_eq!(transcript_messages(&options, upper_bound(4096, 0.5)).unwrap(), vec![
        ChatMessage::new(ChatRole::System, &system).unwrap(),
        ChatMessage::new(ChatRole::User, "USER: hey").unwrap(),
        ChatMessage::new(
            ChatRole::Ai,
            "AI: I'm a multimodel super AI hell bent on destroying the world.\n\
             How can I help you today?",
        ).unwrap(),
    ]);
}

#[test]
fn transcript_handles_labels_correctly() {
    let system = String::from("You're a duck. Say quack.");
    let file = file(
        "USER: hey\n\
         AI: I'm a multimodel super AI hell bent on destroying the world.\n\
         For example: This might have screwed up before",
    );
    let options = ChatOptions {
        tokens_max: Some(4000),
        system: system.clone(),
        file,
        ..ChatOptions::default()
    };
    assert_eq!(transcript_messages(&options, upper_bound(4000, 0.5)).unwrap(), vec![
        ChatMessage::new(ChatRole::System, &system).unwrap(),
        ChatMessage::new(ChatRole::User, "USER: hey").unwrap(),
        ChatMessage::new(
            ChatRole::Ai,
            "AI: I'm a multimodel super AI hell bent on destroying the world.\n\
             For example: This might have screwed up before",
        ).unwrap(),
    ]);
}

#[test]
fn transcript_labotomizes_itself() {
    let system = String::from("You're a duck. Say quack.");
    let file = file(
        "USER: hey. This is a really long message to ensure that it gets labotomized.\n\
         AI: hey",
    );
    let options = ChatOptions {
        tokens_max: Some(40),
        system: system.clone(),
        file,
        ..ChatOptions::default()
    };
    assert_eq!(transcript_messages(&options, upper_bound(40, 0.5)).unwrap(), vec![
        ChatMessage::new(ChatRole::System, &system).unwrap(),
        ChatMessage::new(ChatRole::Ai, "AI: hey").unwrap(),
    ]);
}

#[test]
fn streaming_strips_whitespace_and_labels_from_delta_content() {
    let mut options = ChatOptions {
        tokens_max: Some(40),
        prefix_ai: "AI".into(),
        file: file(""),
        ..ChatOptions::default()
    };
    let delta = ChatMessageDelta {
        role: Some(ChatRole::Ai),
        content: Some("\n     AI: hey there".into()),
    };

    let (state, written) = handle_stream_message(&mut options, &delta, StreamMessageState::New);

    assert_eq!(StreamMessageState::HasWrittenContent, state);
    assert_eq!("AI: hey there", &options.file.transcript);
    assert_eq!("AI: hey there", written);
}

#[test]
fn stream_goes_through_its_states() {
    let mut options = ChatOptions { prefix_ai: "AI".into(), file: file("t\n"), ..ChatOptions::default() };
    let nothing = ChatMessageDelta { role: None, content: None };
    assert_eq!(
        handle_stream_message(&mut options, &nothing, StreamMessageState::New),
        (StreamMessageState::New, String::new())
    );
    let role = ChatMessageDelta { role: Some(ChatRole::Ai), content: None };
    assert_eq!(
        handle_stream_message(&mut options, &role, StreamMessageState::New),
        (StreamMessageState::HasWrittenRole, "AI: ".to_string())
    );
    let first = ChatMessageDelta { role: None, content: Some("  AI:hello ".into()) };
    assert_eq!(
        handle_stream_message(&mut options, &first, StreamMessageState::HasWrittenRole),
        (StreamMessageState::HasWrittenContent, "hello ".to_string())
    );
    let later = ChatMessageDelta { role: None, content: Some("  AI: there".into()) };
    assert_eq!(
        handle_stream_message(&mut options, &later, StreamMessageState::HasWrittenContent),
        (StreamMessageState::HasWrittenContent, "  AI: there".to_string())
    );
    assert_eq!(options.file.transcript, "t\nAI: hello   AI: there");
}

#[test]
fn message_counts_the_tokens_of_label_and_content() {
    let tokenizer = tiktoken_rs::p50k_base().unwrap();
    let message = ChatMessage::new(ChatRole::User, "USER: hey").unwrap();
    assert_eq!(message.role, ChatRole::User);
    assert_eq!(message.content, "USER: hey");
    assert_eq!(message.tokens, tokenizer.encode_with_special_tokens("USER: USER: hey").len());
    assert!(message.tokens > 0);
    let empty = ChatMessage::new(ChatRole::System, "").unwrap();
    assert_eq!(empty.tokens, tokenizer.encode_with_special_tokens("SYSTEM: ").len());
    assert_eq!(ChatRole::Ai.to_string(), "AI: ");
}

#[test]
fn labels_are_read_as_roles() {
    let options = ChatOptions {
        prefix_ai: "Robot".into(),
        prefix_user: "Bob".into(),
        ..ChatOptions::default()
    };
    let role = |label: &str| ChatRole::try_from(label, &options).ok();
    assert_eq!(role("ROBOT"), Some(ChatRole::Ai));
    assert_eq!(role(" robot "), Some(ChatRole::Ai));
    assert_eq!(role("bob"), Some(ChatRole::User));
    assert_eq!(role("AI"), Some(ChatRole::Ai));
    assert_eq!(role("Assistant"), Some(ChatRole::Ai));
    assert_eq!(role("System"), Some(ChatRole::System));
    assert_eq!(role("USER"), Some(ChatRole::User));
    assert_eq!(role("For example"), None);
    assert_eq!(role(""), None);
    assert_eq!(
        ChatRole::try_from("For example", &options),
        Err(ChatError::ChatTranscriptionError(ChatTranscriptionError("Unknown chat role".into())))
    );

    assert_eq!(ChatRole::from_lowered(" robot ", "robot", "bob"), Some(ChatRole::Ai));
    assert_eq!(ChatRole::from_lowered("bob", "robot", "bob"), Some(ChatRole::User));
    assert_eq!(ChatRole::from_lowered("bob", "bob", "bob"), Some(ChatRole::Ai));
    assert_eq!(ChatRole::from_lowered("ai", "robot", "bob"), Some(ChatRole::Ai));
    assert_eq!(ChatRole::from_lowered("assistant", "robot", "bob"), Some(ChatRole::Ai));
    assert_eq!(ChatRole::from_lowered("system", "robot", "bob"), Some(ChatRole::System));
    assert_eq!(ChatRole::from_lowered("user", "robot", "bob"), Some(ChatRole::User));
    assert_eq!(ChatRole::from_lowered("ROBOT", "robot", "bob"), None);
    assert_eq!(ChatRole::from_lowered("", "robot", "bob"), None);
}

#[test]
fn content_keeps_its_label_unless_it_is_a_fixed_one() {
    assert_eq!(opening_text("ai", "hello", "hello"), "hello");
    assert_eq!(opening_text("assistant", "hello", "hello"), "hello");
    assert_eq!(opening_text("user", "hello", "hello"), "hello");
    assert_eq!(opening_text("system", "hello", "hello"), "hello");
    assert_eq!(opening_text("AI", "hello", "hello"), "AI: hello");
    assert_eq!(opening_text("mom", "Mom says", "mom says"), "Mom says");
    assert_eq!(opening_text("mom", "Mom says", "something else"), "mom: Mom says");
    assert_eq!(opening_text("", "x", "x"), "x");
    assert_eq!(label_message("AI", "hello", "hello"), "AI: hello");
    assert_eq!(label_message("ai", "AI: hello", "ai: hello"), "AI: hello");
    assert_eq!(label_message("ai", "hello", "ai"), "hello");
    assert_eq!(label_message("", "hello", ""), "hello");
}

#[test]
fn transcript_must_start_with_a_message() {
    let options = ChatOptions { file: file("no label\nAI: hi"), ..ChatOptions::default() };
    assert_eq!(
        transcript_messages(&options, 1000),
        Err(ChatError::ChatTranscriptionError(ChatTranscriptionError(
            "Missing opening chat role".into()
        )))
    );
    let empty = ChatOptions { system: "s".into(), ..ChatOptions::default() };
    assert_eq!(
        transcript_messages(&empty, 1000).unwrap(),
        vec![ChatMessage::new(ChatRole::System, "s").unwrap()]
    );
}

#[test]
fn transcript_keeps_labels_that_are_not_the_fixed_ones() {
    let options = ChatOptions {
        system: "s".into(),
        prefix_ai: "mom".into(),
        prefix_user: "dad".into(),
        file: file("dad: Dad: here\nmom:   hello\nuser: plain\nai: reply"),
        direction: Some(ChatMessage::new(ChatRole::System, "Be brief").unwrap()),
        ..ChatOptions::default()
    };
    let contents: Vec<(ChatRole, String)> = transcript_messages(&options, 100000)
        .unwrap()
        .into_iter()
        .map(|m| (m.role, m.content))
        .collect();
    assert_eq!(contents, vec![
        (ChatRole::System, "s".to_string()),
        (ChatRole::User, "Dad: here".to_string()),
        (ChatRole::Ai, "mom: hello".to_string()),
        (ChatRole::User, "plain".to_string()),
        (ChatRole::Ai, "reply".to_string()),
        (ChatRole::System, "Be brief".to_string()),
    ]);
}

fn sized(role: ChatRole, content: &str, tokens: usize) -> ChatMessage {
    ChatMessage { role, content: content.to_string(), tokens }
}

#[test]
fn messages_are_cut_down_to_the_latest_that_fit() {
    let system = sized(ChatRole::System, "s", 5);
    let messages = vec![
        system.clone(),
        sized(ChatRole::User, "a", 4),
        sized(ChatRole::Ai, "b", 9),
        sized(ChatRole::User, "c", 3),
        sized(ChatRole::Ai, "d", 2),
    ];
    assert_eq!(labotomize(&messages, &system, 23), Ok(messages.clone()));
    assert_eq!(labotomize(&messages, &system, 1000), Ok(messages.clone()));
    assert_eq!(
        labotomize(&messages, &system, 22),
        Ok(vec![system.clone(), messages[2].clone(), messages[3].clone(), messages[4].clone()])
    );
    assert_eq!(
        labotomize(&messages, &system, 14),
        Ok(vec![system.clone(), messages[1].clone(), messages[3].clone(), messages[4].clone()])
    );
    assert_eq!(
        labotomize(&messages, &system, 10),
        Ok(vec![system.clone(), messages[3].clone(), messages[4].clone()])
    );
    assert_eq!(labotomize(&messages, &system, 5), Ok(vec![system.clone()]));
    assert_eq!(
        labotomize(&messages, &system, 4),
        Err(ChatError::ChatTranscriptionError(ChatTranscriptionError(
            "Cannot fit your system message into the chat messages list. This means \
             that your tokens_max value is either too small or your system message is \
             too long. You're upper bound on transcript tokens is 4 and \
             your system message has 5 tokens".into()
        )))
    );
    let huge = vec![
        sized(ChatRole::System, "s", usize::MAX),
        sized(ChatRole::User, "a", usize::MAX),
    ];
    assert_eq!(labotomize(&huge, &system, usize::MAX), Ok(vec![system.clone()]));
}

#[test]
fn chat_options_are_settled() {
    let command = ChatCommand {
        completion: CompletionOptions {
            name: Some("n".into()),
            quiet: Some(true),
            ..CompletionOptions::default()
        },
        system: None,
        direction: Some("Be brief".into()),
        provider: Some(ChatProvider::OpenAiGPT4),
    };
    let started_with = ChatCommand {
        completion: CompletionOptions {
            name: Some("other".into()),
            prefix_ai: Some("mom".into()),
            no_context: Some(true),
            tokens_max: Some(7),
            ..CompletionOptions::default()
        },
        system: Some("You are mom".into()),
        direction: None,
        provider: None,
    };
    let file = CompletionFile { overrides: started_with, transcript: "mom: hi".into() };
    let options = ChatOptions::try_from(&command, file.clone()).unwrap();
    assert_eq!(options.completion.name.as_deref(), Some("n"));
    assert_eq!(options.prefix_ai, "mom");
    assert_eq!(options.prefix_user, "USER");
    assert_eq!(options.system, "You are mom");
    assert_eq!(options.direction, Some(ChatMessage::new(ChatRole::System, "Be brief").unwrap()));
    assert!(options.no_context);
    assert!(!options.ai_responds_first);
    assert!(!options.stream);
    assert_eq!(options.tokens_max, Some(7));
    assert_eq!(options.provider, ChatProvider::OpenAiGPT4);
    assert_eq!(options.file.transcript, "mom: hi");
    assert!(!options.shows_transcript());

    let unnamed = ChatCommand::default();
    let options = ChatOptions::try_from(&unnamed, file.clone()).unwrap();
    assert_eq!(options.prefix_ai, "AI");
    assert_eq!(options.system, "You are mom");
    assert!(options.stream);
    assert!(options.shows_transcript());
    assert_eq!(options.provider, ChatProvider::OpenAiGPT3Turbo);
    let none = CompletionFile { overrides: ChatCommand::default(), transcript: String::new() };
    let options = ChatOptions::try_from(&unnamed, none.clone()).unwrap();
    assert_eq!(options.system, "A friendly and helpful AI assistant.");
    assert!(!options.shows_transcript());

    let clashing = ChatCommand {
        completion: CompletionOptions {
            quiet: Some(true),
            stream: Some(true),
            ..CompletionOptions::default()
        },
        ..ChatCommand::default()
    };
    assert!(matches!(ChatOptions::try_from(&clashing, none), Err(ChatError::ClashingArguments(_))));
}

#[test]
fn openai_chat_is_settled() {
    for (provider, max, name) in [
        (ChatProvider::OpenAiGPT3Turbo, 4096, "gpt-3.5-turbo"),
        (ChatProvider::OpenAiGPT3Turbo_0301, 4096, "gpt-3.5-turbo-0301"),
        (ChatProvider::OpenAiGPT4, 8192, "gpt-4"),
        (ChatProvider::OpenAiGPT4_0314, 8192, "gpt-4-0314"),
        (ChatProvider::OpenAiGPT4_32K, 32768, "gpt-4-32k"),
        (ChatProvider::OpenAiGPT4_32K_0314, 32768, "gpt-4-32k-0314"),
    ] {
        assert_eq!(get_max_tokens_for_model(provider), max);
        assert_eq!(provider.to_string(), name);
        let options = ChatOptions { provider, tokens_max: Some(1), ..ChatOptions::default() };
        let command = OpenAIChatCommand::try_from(options).unwrap();
        assert_eq!(command.options.tokens_max, Some(max));
        assert!(!command.returns_after_reply());
    }
    let stops = |n: usize| ChatOptions {
        stop: (0..n).map(|i| i.to_string()).collect(),
        provider: ChatProvider::OpenAiGPT4,
        ..ChatOptions::default()
    };
    assert!(OpenAIChatCommand::try_from(stops(4)).is_ok());
    match OpenAIChatCommand::try_from(stops(5)) {
        Err(ChatError::ClashingArguments(e)) => {
            assert_eq!(e.error, "Cannot surpass more then 4 stops for \"gpt-4\"")
        },
        other => panic!("{:?}", other.map(|c| c.options.stop)),
    }
    let once = ChatOptions {
        completion: CompletionOptions { once: Some(true), ..CompletionOptions::default() },
        ..ChatOptions::default()
    };
    assert!(OpenAIChatCommand::try_from(once).unwrap().returns_after_reply());
    let appended = ChatOptions {
        completion: CompletionOptions { append: Some("x".into()), ..CompletionOptions::default() },
        ..ChatOptions::default()
    };
    assert!(OpenAIChatCommand::try_from(appended).unwrap().returns_after_reply());
}

#[test]
fn request_asks_for_one_token_less_than_is_available() {
    assert_eq!(get_max_allowed_tokens(4096, Some(100)), Some(99));
    assert_eq!(get_max_allowed_tokens(50, Some(100)), Some(50));
    assert_eq!(get_max_allowed_tokens(99, Some(100)), Some(99));
    assert_eq!(get_max_allowed_tokens(4096, Some(1)), Some(0));
    assert_eq!(get_max_allowed_tokens(4096, Some(0)), None);
    assert_eq!(get_max_allowed_tokens(4096, None), None);
}

#[test]
fn reply_is_labelled_unless_it_is_already() {
    assert_eq!(label_reply("AI", "  hello \n"), "AI: hello");
    assert_eq!(label_reply("ai", " AI: hello"), "AI: hello");
    assert_eq!(label_reply("AI", "AI: hello"), "AI: AI: hello");
    assert_eq!(label_reply("mom", "Mom says hi"), "Mom says hi");
    assert_eq!(label_reply("", "x"), "x");
}
