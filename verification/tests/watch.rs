use prompt::completion::{next_entry, CompletionFile, CompletionOptions, SessionParts};
use prompt::watch::Tail;

#[test]
fn tail_shows_the_transcript_once_and_then_only_new_lines() {
    let content = "name: mom\nonce: true\n<->\nmom: hello\ndad: hi\n";
    let (mut tail, shown) = Tail::open(content);
    assert_eq!(shown, "mom: hello\n\ndad: hi\n\n");
    assert_eq!(tail.seen, 5);

    assert_eq!(tail.modified(content), "");
    assert_eq!(tail.seen, 5);

    let grown = "name: mom\nonce: true\n<->\nmom: hello\ndad: hi\nmom: again\ndad: yes\n";
    assert_eq!(tail.modified(grown), "mom: again\ndad: yes");
    assert_eq!(tail.seen, 7);

    let rewritten = "name: mom\n<->\nmom: hello\n";
    assert_eq!(tail.modified(rewritten), "");
    assert_eq!(tail.seen, 7);

    let one_more = "a\nb\nc\nd\ne\nf\ng\nh";
    assert_eq!(tail.modified(one_more), "h");
    assert_eq!(tail.seen, 8);
}

#[test]
fn tail_of_a_file_without_divider_shows_nothing() {
    let (tail, shown) = Tail::open("");
    assert_eq!(shown, "");
    assert_eq!(tail.seen, 0);
    let (tail, shown) = Tail::open("just\ntext");
    assert_eq!(shown, "");
    assert_eq!(tail.seen, 2);
    let (tail, shown) = Tail::open("config\n<->");
    assert_eq!(shown, "");
    assert_eq!(tail.seen, 2);
    let (_, shown) = Tail::open("config\n<->\n\n\n  first\r\nsecond");
    assert_eq!(shown, "first\n\nsecond\n\n");
}

#[test]
fn session_file_round_trip() {
    let config = "name: mom\nonce: true\n";
    let transcript = "mom: hello\ndad: hi";
    let text = format!("{}<->\n{}", config, transcript);
    assert_eq!(
        CompletionOptions::load_session_file(&text),
        Some(SessionParts { config: config.to_string(), transcript: transcript.to_string() })
    );
    let (_, shown) = Tail::open(&text);
    assert_eq!(shown, "mom: hello\n\ndad: hi\n\n");

    assert_eq!(CompletionOptions::load_session_file("no divider"), None);
    assert_eq!(
        CompletionOptions::load_session_file("a: 1\n<->\n  \n padded \n\n"),
        Some(SessionParts {
            config: "a: 1\n".to_string(),
            transcript: "  \n padded \n\n".to_string()
        })
    );
    assert_eq!(
        CompletionOptions::load_session_file("a: 1\n<->\n<->\nb"),
        Some(SessionParts { config: "a: 1\n".to_string(), transcript: "<->\nb".to_string() })
    );
    assert_eq!(
        CompletionOptions::load_session_file("<->"),
        Some(SessionParts { config: String::new(), transcript: String::new() })
    );
}

#[test]
fn a_session_that_is_reopened_goes_on_where_it_ended() {
    let parts = CompletionOptions::load_session_file("name: x\n<->\nUSER: hi\n").unwrap();
    assert_eq!(parts.config, "name: x\n");
    assert_eq!(parts.transcript, "USER: hi\n");
    let mut file = CompletionFile::new(parts.transcript, Some("stored"), "given");
    assert_eq!(file.overrides, "stored");
    assert_eq!(file.read(Some("next"), None, Some("USER")), Some("USER: next".to_string()));
    assert_eq!(file.transcript, "USER: hi\nUSER: next\n");
    let fresh = CompletionFile::new(String::new(), None, "given");
    assert_eq!(fresh.overrides, "given");
    assert_eq!(fresh.transcript, "");
    assert_eq!(next_entry(None, Some("  typed "), Some("ME")), Some("ME: typed".to_string()));
    assert_eq!(next_entry(Some("a"), Some("b"), None), Some("a".to_string()));
    assert_eq!(next_entry(None, None, Some("ME")), None);
}

#[test]
fn transcript_grows_by_what_is_written_and_read() {
    let mut file = CompletionFile { overrides: (), transcript: String::from("start\n") };
    assert_eq!(file.write_words("some".to_string()), "some");
    assert_eq!(file.write("line".to_string()), "line");
    assert_eq!(file.transcript, "start\nsomeline\n");
    assert_eq!(file.read(Some("  given  "), None, Some("USER")), Some("USER: given".to_string()));
    assert_eq!(file.read(None, Some(" typed\n"), None), Some("typed".to_string()));
    assert_eq!(file.read(Some("given"), Some("typed"), None), Some("given".to_string()));
    assert_eq!(file.read(None, None, Some("USER")), None);
    assert_eq!(file.transcript, "start\nsomeline\nUSER: given\ntyped\ngiven\n");
}
