use prompt::ast::PromptOptions;
use prompt::completion::{ClashingArgumentsError, CompletionOptions};
use prompt::parser::header::{
    decode_options, dedent_text, options_from_fields, read_header, OptionsError,
};
use prompt::text::{
    chars_of, decimal_of, find_char, find_in, has_at, replaced, same_text, same_texts,
    split_lines, to_string, trimmed, trimmed_end, trimmed_start, whitespace,
};
use prompt::yaml::{YamlField, YamlShape};

fn chars(s: &str) -> Vec<char> {
    s.chars().collect()
}

fn text(v: Vec<char>) -> String {
    v.into_iter().collect()
}

#[test]
fn header_is_dedented_by_its_first_line_of_text() {
    let header = "\n        history: false\n        description: >\n            long\n            text\n    ";
    assert_eq!(
        text(dedent_text(&chars(header))),
        "\nhistory: false\ndescription: >\n    long\n    text\n    \n"
    );
    assert_eq!(text(dedent_text(&chars(""))), "");
    assert_eq!(text(dedent_text(&chars(" "))), " \n");
    assert_eq!(text(dedent_text(&chars("   \n  \n"))), "   \n  \n");
    assert_eq!(text(dedent_text(&chars("a: 1\n  b: 2"))), "a: 1\n  b: 2\n");
    assert_eq!(text(dedent_text(&chars("  a: 1\n b\nc: 3\r\n"))), "a: 1\n b\n 3\n");
    assert_eq!(text(dedent_text(&chars("\ta: 1\n\tb: 2"))), "\ta: 1\n\tb: 2\n");
}

#[test]
fn header_without_text_has_no_options() {
    assert_eq!(read_header(&chars("")), Ok(PromptOptions::default()));
    assert_eq!(read_header(&chars(" ")), Ok(PromptOptions::default()));
    assert_eq!(read_header(&chars("\n     \n   ")), Ok(PromptOptions::default()));
    assert_eq!(read_header(&chars("  # only a comment\n")), Ok(PromptOptions::default()));
}

#[test]
fn options_are_read_from_yaml() {
    assert_eq!(
        decode_options("eager: true\nhistory: false\ndirection: go\ndescription: \"a: b\"\nother: [1, 2]\n"),
        Ok(PromptOptions {
            description: Some("a: b".into()),
            direction: Some("go".into()),
            eager: Some(true),
            history: Some(false),
        })
    );
    assert_eq!(
        decode_options("eager: ~\ndirection:\n"),
        Ok(PromptOptions::default())
    );
    assert_eq!(decode_options("{}"), Ok(PromptOptions::default()));
    assert_eq!(
        decode_options("description: 42\ndirection: false\neager: false\n"),
        Ok(PromptOptions {
            description: Some("42".into()),
            direction: Some("false".into()),
            eager: Some(false),
            history: None,
        })
    );
    assert_eq!(
        decode_options("description: -7\ndirection: 1.5\n"),
        Ok(PromptOptions {
            description: Some("-7".into()),
            direction: Some("1.5".into()),
            eager: None,
            history: None,
        })
    );
    assert_eq!(decode_options("- a\n- b\n"), Err(OptionsError::NotAMapping));
    assert_eq!(decode_options("12"), Err(OptionsError::NotAMapping));
    assert_eq!(
        decode_options("description: [a]\neager: 1"),
        Err(OptionsError::InvalidField("description".into()))
    );
    assert_eq!(
        decode_options("direction: {a: b}\neager: 1"),
        Err(OptionsError::InvalidField("direction".into()))
    );
    assert_eq!(
        decode_options("eager: \"true\"\nhistory: 1"),
        Err(OptionsError::InvalidField("eager".into()))
    );
    assert_eq!(decode_options("history: no way"), Err(OptionsError::InvalidField("history".into())));
    let broken = "eager: [\n";
    let message = serde_yaml::from_str::<serde_yaml::Value>(broken).unwrap_err().to_string();
    assert!(!message.is_empty());
    assert_eq!(decode_options(broken), Err(OptionsError::Malformed(message)));
}

#[test]
fn options_are_built_from_the_fields_of_a_document() {
    let t = |s: &str| Some(YamlField::Text(s.to_string()));
    assert_eq!(
        options_from_fields(YamlShape::Mapping, t("d"), None, Some(YamlField::Bool(true)), Some(YamlField::Null)),
        Ok(PromptOptions {
            description: Some("d".into()),
            direction: None,
            eager: Some(true),
            history: None,
        })
    );
    assert_eq!(
        options_from_fields(YamlShape::Null, Some(YamlField::Other), t("x"), t("y"), t("z")),
        Ok(PromptOptions::default())
    );
    assert_eq!(
        options_from_fields(YamlShape::Other, None, None, None, None),
        Err(OptionsError::NotAMapping)
    );
    assert_eq!(
        options_from_fields(YamlShape::Mapping, Some(YamlField::Other), Some(YamlField::Other), None, None),
        Err(OptionsError::InvalidField("description".into()))
    );
    assert_eq!(
        options_from_fields(
            YamlShape::Mapping,
            Some(YamlField::Bool(true)),
            Some(YamlField::Number("42".into())),
            Some(YamlField::Bool(false)),
            None
        ),
        Ok(PromptOptions {
            description: Some("true".into()),
            direction: Some("42".into()),
            eager: Some(false),
            history: None,
        })
    );
    assert_eq!(
        options_from_fields(YamlShape::Mapping, None, None, Some(YamlField::Number("1".into())), None),
        Err(OptionsError::InvalidField("eager".into()))
    );
    assert_eq!(
        options_from_fields(YamlShape::Mapping, None, Some(YamlField::Other), t("x"), None),
        Err(OptionsError::InvalidField("direction".into()))
    );
    assert_eq!(
        options_from_fields(YamlShape::Mapping, None, None, t("x"), t("y")),
        Err(OptionsError::InvalidField("eager".into()))
    );
    assert_eq!(
        options_from_fields(YamlShape::Mapping, None, None, None, Some(YamlField::Other)),
        Err(OptionsError::InvalidField("history".into()))
    );
}

#[test]
fn text_is_split_into_lines() {
    let lines = |s: &str| -> Vec<String> { split_lines(&chars(s)).into_iter().map(text).collect() };
    assert_eq!(lines(""), Vec::<String>::new());
    assert_eq!(lines("a"), vec!["a"]);
    assert_eq!(lines("a\n"), vec!["a"]);
    assert_eq!(lines("\n"), vec![""]);
    assert_eq!(lines("a\n\nb"), vec!["a", "", "b"]);
    assert_eq!(lines("a\r\nb\r"), vec!["a", "b\r"]);
    assert_eq!(lines("\r\n\r\n"), vec!["", ""]);
    for sample in ["", "a", "a\n", "\n", "a\n\nb", "a\r\nb\r", "x\r\n\r\ny\n"] {
        let expected: Vec<String> = sample.lines().map(|l| l.to_string()).collect();
        assert_eq!(lines(sample), expected);
    }
}

#[test]
fn text_is_trimmed_of_whitespace() {
    assert_eq!(text(trimmed(&chars("  a b \t\n"))), "a b");
    assert_eq!(text(trimmed_start(&chars("  a b \t\n"))), "a b \t\n");
    assert_eq!(text(trimmed_end(&chars("  a b \t\n"))), "  a b");
    assert_eq!(text(trimmed(&chars(" \u{a0}\u{3000}x\u{2028}\u{85}"))), "x");
    assert_eq!(text(trimmed(&chars("   "))), "");
    assert_eq!(text(trimmed(&chars(""))), "");
    for code in 0u32..0x3100 {
        if let Some(c) = char::from_u32(code) {
            assert_eq!(whitespace(c), c.is_whitespace(), "{:x}", code);
        }
    }
}

#[test]
fn text_is_searched_and_replaced() {
    let hay = chars("one ${T} two ${T}${T}");
    let needle = chars("${T}");
    assert_eq!(find_in(&hay, &needle, 0), Some(4));
    assert_eq!(find_in(&hay, &needle, 5), Some(13));
    assert_eq!(find_in(&hay, &needle, 18), None);
    assert_eq!(find_in(&hay, &chars(""), 3), Some(3));
    assert_eq!(find_in(&hay, &chars("zzz"), 0), None);
    assert!(has_at(&hay, &needle, 17));
    assert!(!has_at(&hay, &needle, 18));
    assert!(!has_at(&hay, &needle, 100));
    assert_eq!(find_char(&hay, 0, '$'), 4);
    assert_eq!(find_char(&hay, 0, '#'), hay.len());
    assert_eq!(text(replaced(&hay, &needle, &chars("X"))), "one X two XX");
    assert_eq!(text(replaced(&chars("aaa"), &chars("aa"), &chars("b"))), "ba");
    assert_eq!(text(replaced(&chars("abc"), &chars(""), &chars("-"))), "abc");
    assert_eq!(text(replaced(&chars("abc"), &chars("abc"), &chars(""))), "");
}

#[test]
fn numbers_are_written_in_decimal() {
    for n in [0usize, 1, 9, 10, 11, 99, 100, 4096, 32768, usize::MAX] {
        assert_eq!(text(decimal_of(n)), n.to_string());
    }
}

#[test]
fn texts_are_compared() {
    assert!(same_text("abc", "abc"));
    assert!(!same_text("abc", "abd"));
    assert!(!same_text("abc", "ab"));
    assert!(same_text("", ""));
    assert!(same_texts(&vec!["a".to_string(), "b".to_string()], &vec!["a".to_string(), "b".to_string()]));
    assert!(!same_texts(&vec!["a".to_string()], &vec!["a".to_string(), "b".to_string()]));
    assert!(!same_texts(&vec!["a".to_string(), "c".to_string()], &vec!["a".to_string(), "b".to_string()]));
    assert_eq!(chars_of("héllo"), chars("héllo"));
    assert_eq!(to_string(&chars("héllo")), "héllo");
}

fn options() -> CompletionOptions {
    CompletionOptions::default()
}

#[test]
fn options_are_merged_field_by_field() {
    let mine = CompletionOptions {
        ai_responds_first: Some(false),
        name: Some("mine".into()),
        quiet: None,
        tokens_max: Some(10),
        ..options()
    };
    let theirs = CompletionOptions {
        ai_responds_first: Some(true),
        append: Some("more".into()),
        name: Some("theirs".into()),
        no_context: Some(true),
        once: Some(true),
        overwrite: Some(false),
        quiet: Some(true),
        prefix_ai: Some("AI".into()),
        prefix_user: Some("ME".into()),
        response_count: Some(3),
        stream: Some(false),
        tokens_max: Some(20),
    };
    assert_eq!(mine.merge(&theirs), CompletionOptions {
        ai_responds_first: Some(false),
        append: Some("more".into()),
        name: Some("mine".into()),
        no_context: Some(true),
        once: Some(true),
        overwrite: Some(false),
        quiet: Some(true),
        prefix_ai: Some("AI".into()),
        prefix_user: Some("ME".into()),
        response_count: Some(3),
        stream: Some(false),
        tokens_max: Some(10),
    });
    assert_eq!(options().merge(&options()), options());
    assert_eq!(theirs.merge(&mine), theirs);
}

#[test]
fn quiet_and_stream_clash() {
    let with = |quiet, stream| CompletionOptions { quiet, stream, ..options() }.parse_stream_option();
    assert_eq!(
        with(Some(true), Some(true)),
        Err(ClashingArgumentsError::new(
            "Having both quiet and stream enabled doesn't make sense.".into()
        ))
    );
    assert_eq!(with(Some(true), None), Ok(false));
    assert_eq!(with(Some(true), Some(false)), Ok(false));
    assert_eq!(with(None, Some(false)), Ok(false));
    assert_eq!(with(Some(false), Some(false)), Ok(false));
    assert_eq!(with(Some(false), None), Ok(true));
    assert_eq!(with(Some(false), Some(true)), Ok(true));
    assert_eq!(with(None, Some(true)), Ok(true));
    assert_eq!(with(None, None), Ok(true));
}

#[test]
fn options_are_validated() {
    let clash = |o: CompletionOptions| o.validate().unwrap_err().error;
    assert_eq!(options().validate(), Ok(()));
    assert_eq!(
        clash(CompletionOptions { append: Some("x".into()), overwrite: Some(true), ..options() }),
        "The append option also requires a session name"
    );
    assert_eq!(
        clash(CompletionOptions { overwrite: Some(true), ai_responds_first: Some(true), ..options() }),
        "The overwrite options also requires a session name"
    );
    assert_eq!(
        clash(CompletionOptions {
            name: Some("n".into()),
            append: Some("x".into()),
            ai_responds_first: Some(true),
            response_count: Some(0),
            ..options()
        }),
        "Specifying that the ai responds first with the append option is nonsensical"
    );
    assert_eq!(
        clash(CompletionOptions { response_count: Some(0), overwrite: Some(false), ..options() }),
        "The response count should be more than 0"
    );
    assert_eq!(
        CompletionOptions {
            name: Some("n".into()),
            append: Some("x".into()),
            overwrite: Some(true),
            response_count: Some(1),
            ..options()
        }.validate(),
        Ok(())
    );
}
