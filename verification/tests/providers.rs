use prompt::cohere::session::{CohereModel, CohereSessionCommand};
use prompt::completion::{ClashingArgumentsError, CompletionFile, CompletionOptions};
use prompt::config::{Config, JSONConfig, DEFAULT_CONFIG_FILE};
use prompt::eleven_labs::voice::{
    status_meaning, ElevenLabsGenerateCommand, ElevenLabsListCommand, StatusMeaning, VoiceEntry,
    VoiceLookup,
};
use prompt::image::{
    picture_file_name, ImageBinary, ImageCommand, ImageData, ImageUrl, PictureFormat, PictureSize,
};
use prompt::openai::session::OpenAIModel;
use prompt::session::{
    Model, ModelFocus, Provider, SessionCommand, SessionError, SessionOptions, SessionResult,
    SessionResultExt, SessionStep, DEFAULT_CHAT_PROMPT_WRAPPER, DEFAULT_CODE_PROMPT_WRAPPER,
};
use prompt::voice::{VoiceError, VoiceGenerate, VoiceList};

fn command() -> SessionCommand {
    SessionCommand {
        completion: CompletionOptions::default(),
        model: None,
        model_focus: None,
        prompt: None,
        prompt_path: None,
        provider: None,
    }
}

fn unnamed_file() -> CompletionFile<SessionCommand> {
    CompletionFile { overrides: command(), transcript: String::new() }
}

#[test]
fn openai_models_by_focus_and_size() {
    let pick = |f, m| OpenAIModel::try_from((f, m));
    assert_eq!(pick(ModelFocus::Text, Model::Tiny), Ok((OpenAIModel::TextAda, true)));
    assert_eq!(pick(ModelFocus::Text, Model::Small), Ok((OpenAIModel::TextBabbage, true)));
    assert_eq!(pick(ModelFocus::Text, Model::Medium), Ok((OpenAIModel::TextCurie, true)));
    assert_eq!(pick(ModelFocus::Text, Model::Large), Ok((OpenAIModel::TextCurie, false)));
    assert_eq!(pick(ModelFocus::Text, Model::XLarge), Ok((OpenAIModel::TextCurie, false)));
    assert_eq!(pick(ModelFocus::Text, Model::XXLarge), Ok((OpenAIModel::TextDavinci, true)));
    assert_eq!(pick(ModelFocus::Code, Model::Tiny), Err(SessionError::NoMatchingModel));
    assert_eq!(pick(ModelFocus::Code, Model::Small), Err(SessionError::NoMatchingModel));
    assert_eq!(pick(ModelFocus::Code, Model::Medium), Ok((OpenAIModel::CodeCushman, true)));
    assert_eq!(pick(ModelFocus::Code, Model::Large), Ok((OpenAIModel::CodeCushman, false)));
    assert_eq!(pick(ModelFocus::Code, Model::XLarge), Ok((OpenAIModel::CodeCushman, false)));
    assert_eq!(pick(ModelFocus::Code, Model::XXLarge), Ok((OpenAIModel::CodeDavinci, true)));
    assert_eq!(OpenAIModel::TextDavinci.to_versioned(), "text-davinci-003");
    assert_eq!(OpenAIModel::TextCurie.to_versioned(), "text-curie-001");
    assert_eq!(OpenAIModel::TextBabbage.to_versioned(), "text-babbage-001");
    assert_eq!(OpenAIModel::TextAda.to_versioned(), "text-ada-001");
    assert_eq!(OpenAIModel::CodeDavinci.to_versioned(), "code-davinci-002");
    assert_eq!(OpenAIModel::CodeCushman.to_versioned(), "code-cushman-001");
    assert_eq!(OpenAIModel::default(), OpenAIModel::TextDavinci);
}

#[test]
fn cohere_models_by_size() {
    assert_eq!(CohereModel::try_from(Model::Tiny), Ok((CohereModel::Small, true)));
    assert_eq!(CohereModel::try_from(Model::Small), Ok((CohereModel::Small, false)));
    assert_eq!(CohereModel::try_from(Model::Medium), Ok((CohereModel::Medium, true)));
    assert_eq!(CohereModel::try_from(Model::Large), Ok((CohereModel::Large, true)));
    assert_eq!(CohereModel::try_from(Model::XLarge), Ok((CohereModel::XLarge, true)));
    assert_eq!(CohereModel::try_from(Model::XXLarge), Ok((CohereModel::XLarge, false)));
    assert_eq!(CohereModel::Small.to_versioned(), "small");
    assert_eq!(CohereModel::Medium.to_versioned(), "medium");
    assert_eq!(CohereModel::Large.to_versioned(), "large");
    assert_eq!(CohereModel::XLarge.to_versioned(), "xlarge");
    assert_eq!(CohereModel::default(), CohereModel::XLarge);

    let text = SessionOptions::try_from(
        &SessionCommand {
            completion: CompletionOptions { response_count: Some(3), ..CompletionOptions::default() },
            model: Some(Model::Medium),
            ..command()
        },
        unnamed_file(),
        None,
    ).unwrap();
    assert_eq!(
        CohereSessionCommand::try_from(&text),
        Ok(CohereSessionCommand { model: CohereModel::Medium, response_count: 3 })
    );
    let code = SessionOptions::try_from(
        &SessionCommand { model_focus: Some(ModelFocus::Code), ..command() },
        unnamed_file(),
        None,
    ).unwrap();
    assert_eq!(CohereSessionCommand::try_from(&code), Err(SessionError::NoMatchingModel));
    let plain = SessionOptions::try_from(&command(), unnamed_file(), None).unwrap();
    assert_eq!(
        CohereSessionCommand::try_from(&plain),
        Ok(CohereSessionCommand { model: CohereModel::XLarge, response_count: 1 })
    );
}

#[test]
fn session_options_are_settled() {
    let plain = SessionOptions::try_from(&command(), unnamed_file(), Some("ignored".into())).unwrap();
    assert_eq!(plain.model, Model::XXLarge);
    assert_eq!(plain.model_focus, ModelFocus::Text);
    assert_eq!(plain.provider, Provider::OpenAI);
    assert_eq!(plain.prompt, DEFAULT_CHAT_PROMPT_WRAPPER);
    assert!(plain.stream);
    assert!(!plain.no_context);
    assert!(!plain.ai_responds_first);

    let code = SessionCommand {
        model_focus: Some(ModelFocus::Code),
        provider: Some(Provider::Cohere),
        ..command()
    };
    assert!(code.parse_no_context_option());
    assert_eq!(code.parse_prompt_option(None), DEFAULT_CODE_PROMPT_WRAPPER);
    let with_context = SessionCommand {
        completion: CompletionOptions { no_context: Some(false), ..CompletionOptions::default() },
        ..code.clone()
    };
    assert!(!with_context.parse_no_context_option());
    assert!(!command().parse_no_context_option());

    let from_path = SessionCommand { prompt_path: Some("p.txt".into()), ..command() };
    assert_eq!(from_path.parse_prompt_option(Some("from file".into())), "from file");
    assert_eq!(from_path.parse_prompt_option(None), DEFAULT_CHAT_PROMPT_WRAPPER);
    let given = SessionCommand { prompt: Some("given".into()), ..from_path };
    assert_eq!(given.parse_prompt_option(Some("from file".into())), "given");

    let named = SessionCommand {
        completion: CompletionOptions { name: Some("n".into()), ..CompletionOptions::default() },
        ..command()
    };
    let started = CompletionFile {
        overrides: SessionCommand {
            completion: CompletionOptions {
                quiet: Some(true),
                prefix_ai: Some("AI:".into()),
                ..CompletionOptions::default()
            },
            ..command()
        },
        transcript: "line".into(),
    };
    let merged = SessionOptions::try_from(&named, started.clone(), None).unwrap();
    assert_eq!(merged.completion.quiet, Some(true));
    assert_eq!(merged.completion.prefix_ai.as_deref(), Some("AI:"));
    assert!(!merged.stream);
    let unmerged = SessionOptions::try_from(&command(), started, None).unwrap();
    assert_eq!(unmerged.completion.quiet, None);

    let invalid = SessionCommand {
        completion: CompletionOptions { append: Some("x".into()), ..CompletionOptions::default() },
        ..command()
    };
    assert_eq!(
        SessionOptions::try_from(&invalid, unnamed_file(), None).unwrap_err(),
        SessionError::ClashingArguments(ClashingArgumentsError::new(
            "The append option also requires a session name".into()
        ))
    );
}

#[test]
fn prompt_is_rendered_from_the_template() {
    let mut options = SessionOptions::try_from(
        &SessionCommand { prompt: Some("A ${TRANSCRIPT} B ${TRANSCRIPT}".into()), ..command() },
        CompletionFile { overrides: command(), transcript: "T\n".into() },
        None,
    ).unwrap();
    assert_eq!(options.render_prompt("line"), "A T\n B T\n");
    options.no_context = true;
    assert_eq!(options.render_prompt("line"), "A line B line");
    options.completion.prefix_ai = Some("AI:".into());
    assert_eq!(options.render_prompt("line"), "A line B lineAI:");
}

#[test]
fn answers_are_taken_in() {
    let fresh = |completion: CompletionOptions| {
        let mut options = SessionOptions::try_from(&command(), unnamed_file(), None).unwrap();
        options.completion = completion;
        options
    };
    let answers = vec![" one \n".to_string(), "two".to_string()];

    let mut many = fresh(CompletionOptions { response_count: Some(2), ..CompletionOptions::default() });
    assert_eq!(many.accept(answers.clone()), SessionStep::Return(answers.clone()));
    assert_eq!(many.file.transcript, "");

    let mut appended = fresh(CompletionOptions {
        append: Some("x".into()),
        response_count: Some(1),
        ..CompletionOptions::default()
    });
    assert_eq!(appended.accept(answers.clone()), SessionStep::Return(vec!["one".to_string()]));
    assert_eq!(appended.file.transcript, "one\n");

    let mut shown = fresh(CompletionOptions { prefix_ai: Some("AI: ".into()), ..CompletionOptions::default() });
    assert_eq!(
        shown.accept(answers.clone()),
        SessionStep::Continue { shown: Some("AI: one".to_string()) }
    );
    assert_eq!(shown.file.transcript, "one\n");

    let mut quiet = fresh(CompletionOptions { quiet: Some(true), ..CompletionOptions::default() });
    assert_eq!(quiet.accept(answers.clone()), SessionStep::Continue { shown: None });
    let mut plain = fresh(CompletionOptions::default());
    assert_eq!(plain.accept(answers), SessionStep::Continue { shown: Some("one".to_string()) });
    assert_eq!(plain.accept(vec![]), SessionStep::Return(vec![]));
    assert_eq!(plain.file.transcript, "one\n");
}

#[test]
fn single_result_is_the_first_answer() {
    let ok: SessionResult = Ok(vec!["a".to_string(), "b".to_string()]);
    assert_eq!(ok.single_result(), Some("a"));
    let none: SessionResult = Ok(vec![]);
    assert_eq!(none.single_result(), None);
    let err: SessionResult = Err(SessionError::Unauthorized);
    assert_eq!(err.single_result(), None);
}

#[test]
fn configuration_takes_the_keys_of_the_file() {
    let file = JSONConfig {
        api_key_cohere: Some("c".into()),
        api_key_openai: None,
        api_key_eleven_labs: Some("e".into()),
    };
    assert_eq!(Config::with_keys(file, "/dir".into()), Config {
        api_key_cohere: Some("c".into()),
        api_key_openai: None,
        api_key_eleven_labs: Some("e".into()),
        dir: "/dir".into(),
    });
    assert_eq!(Config::default().dir, "");
    let parsed: serde_json::Value = serde_json::from_str(DEFAULT_CONFIG_FILE).unwrap();
    assert_eq!(parsed["api_key_openai"], "");
    assert_eq!(parsed["api_key_cohere"], "");
}

#[test]
fn pictures_are_asked_for_and_decoded() {
    let default = ImageCommand::default();
    assert_eq!(default.count, 1);
    assert_eq!(default.size, PictureSize::x512);
    assert_eq!(default.format, PictureFormat::Url);
    assert_eq!(default.response_format(), "url");
    assert!(default.shows_result());
    let binary = ImageCommand { format: PictureFormat::Binary, ..ImageCommand::default() };
    assert_eq!(binary.response_format(), "b64_json");
    assert!(!binary.shows_result());
    let out = ImageCommand { out: Some("dir".into()), ..ImageCommand::default() };
    assert_eq!(out.response_format(), "b64_json");
    assert!(!out.shows_result());
    assert_eq!(PictureSize::x256.to_string(), "256x256");
    assert_eq!(PictureSize::x512.to_string(), "512x512");
    assert_eq!(PictureSize::x1024.to_string(), "1024x1024");
    assert_eq!(picture_file_name(0), "0.png");
    assert_eq!(picture_file_name(12), "12.png");

    let picture = ImageData::Binary(ImageBinary { b64_json: "aGVsbG8=".into() });
    assert_eq!(picture.bytes(), Some(b"hello".to_vec()));
    let broken = ImageData::Binary(ImageBinary { b64_json: "a*b".into() });
    assert_eq!(broken.bytes(), None);
    let address = ImageData::Url(ImageUrl { url: "aGVsbG8=".into() });
    assert_eq!(address.bytes(), None);
}

fn generate(voice: &str, stability: Option<usize>, boost: Option<usize>) -> ElevenLabsGenerateCommand {
    ElevenLabsGenerateCommand::try_from(VoiceGenerate {
        text: "hello".into(),
        out: "out.mp3".into(),
        voice: voice.into(),
        voice_stability: stability,
        voice_similarity_boost: boost,
    }).unwrap()
}

#[test]
fn voices_are_found_and_listed() {
    let voices = vec![
        VoiceEntry { voice_id: "id1".into(), name: "Rachel".into() },
        VoiceEntry { voice_id: "id2".into(), name: "id1".into() },
        VoiceEntry { voice_id: "id3".into(), name: "Bella".into() },
    ];
    assert_eq!(generate("Bella", None, None).voice_id(&voices), Some("id3".to_string()));
    assert_eq!(generate("id1", None, None).voice_id(&voices), Some("id1".to_string()));
    assert_eq!(generate("id2", None, None).voice_id(&voices), Some("id2".to_string()));
    assert_eq!(generate("bella", None, None).voice_id(&voices), None);
    assert_eq!(generate("x", None, None).voice_id(&vec![]), None);
    assert_eq!(
        generate("Bella", None, None).find_voice(&voices, true),
        VoiceLookup::Found("id3".to_string())
    );
    assert_eq!(generate("Anna", None, None).find_voice(&voices, true), VoiceLookup::Refresh);
    assert_eq!(
        generate("Anna", None, None).find_voice(&voices, false),
        VoiceLookup::Unknown(VoiceError::InvalidArguments(
            "Could not find voice id for Anna, try listing the available voices with list".into()
        ))
    );
    assert_eq!(ElevenLabsListCommand::names(&voices), "Rachel, id1, Bella");
    assert_eq!(ElevenLabsListCommand::names(&voices[..1].to_vec()), "Rachel");
    assert_eq!(ElevenLabsListCommand::names(&vec![]), "");

    assert_eq!(generate("x", Some(1), Some(2)).voice_settings(), Ok(Some((1, 2))));
    assert_eq!(generate("x", None, None).voice_settings(), Ok(None));
    assert!(matches!(generate("x", Some(1), None).voice_settings(), Err(VoiceError::InvalidArguments(_))));
    assert!(matches!(generate("x", None, Some(2)).voice_settings(), Err(VoiceError::InvalidArguments(_))));

    assert_eq!(ElevenLabsListCommand::quiet().options, VoiceList { verbose: false, quiet: true });
    assert_eq!(
        ElevenLabsListCommand::try_from(VoiceList { verbose: true, quiet: true }),
        Err(VoiceError::InvalidArguments("Cannot be both verbose and quiet".into()))
    );
    let verbose = VoiceList { verbose: true, quiet: false };
    assert_eq!(ElevenLabsListCommand::try_from(verbose).unwrap().options, verbose);
    assert_eq!(VoiceList::default(), VoiceList { verbose: false, quiet: false });

    assert_eq!(status_meaning(200), StatusMeaning::Success);
    assert_eq!(status_meaning(401), StatusMeaning::Unauthorized);
    assert_eq!(status_meaning(422), StatusMeaning::Invalid);
    assert_eq!(status_meaning(500), StatusMeaning::Unexpected);
    assert_eq!(status_meaning(201), StatusMeaning::Unexpected);
}
