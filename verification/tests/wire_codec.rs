use soundboard::capture::{AudioFormat, CaptureEngine};
use soundboard::wire::{encode_command, encode_response, handle_line, parse_command, parse_response};
use soundboard::{AudioCommand, AudioResponse};

#[test]
fn command_lines_are_exact() {
    assert_eq!(encode_command(&AudioCommand::Stop), "\"Stop\"");
    assert_eq!(encode_command(&AudioCommand::Status), "\"Status\"");
    assert_eq!(
        encode_command(&AudioCommand::Start(String::from("/rec/a.wav"))),
        "{\"Start\":\"/rec/a.wav\"}"
    );
}

#[test]
fn response_lines_are_exact() {
    assert_eq!(encode_response(&AudioResponse::Accepted), "\"Ok\"");
    assert_eq!(
        encode_response(&AudioResponse::Status(String::from("Listening"))),
        "{\"Status\":\"Listening\"}"
    );
    assert_eq!(
        encode_response(&AudioResponse::Error(String::from("Not recording"))),
        "{\"Error\":\"Not recording\"}"
    );
}

#[test]
fn escaping_matches_the_json_serializer() {
    // The same payload, encoded here and by serde_json, byte for byte —
    // including quotes, backslashes, the short escapes, and a bare
    // control character.
    let path = "a\"b\\c\u{8}\u{9}\u{a}\u{c}\u{d}\u{1f}\u{1}end";
    let line = encode_command(&AudioCommand::Start(String::from(path)));

    let mut object = serde_json::Map::new();
    object.insert(
        String::from("Start"),
        serde_json::Value::String(String::from(path)),
    );
    let expected = serde_json::to_string(&serde_json::Value::Object(object)).unwrap();
    assert_eq!(line, expected);
    assert_eq!(line, "{\"Start\":\"a\\\"b\\\\c\\b\\t\\n\\f\\r\\u001f\\u0001end\"}");
}

#[test]
fn unit_tags_match_the_json_serializer() {
    let expected = serde_json::to_string(&serde_json::Value::String(String::from("Stop"))).unwrap();
    assert_eq!(encode_command(&AudioCommand::Stop), expected);
}

#[test]
fn command_round_trips() {
    let paths = [
        "/rec/a.wav",
        "",
        "with space",
        "q\"uote",
        "back\\slash",
        "ctl\u{1}\u{1f}\u{8}\u{c}",
        "unicode-\u{e9}\u{1F600}",
    ];
    for p in paths {
        let line = encode_command(&AudioCommand::Start(String::from(p)));
        match parse_command(&line) {
            Some(AudioCommand::Start(q)) => assert_eq!(q, p),
            _ => panic!("round trip failed for {:?}", p),
        }
    }
    assert!(matches!(parse_command("\"Stop\""), Some(AudioCommand::Stop)));
    assert!(matches!(parse_command("\"Status\""), Some(AudioCommand::Status)));
}

#[test]
fn response_round_trips() {
    let line = encode_response(&AudioResponse::Status(String::from("Recording /rec/a.wav")));
    match parse_response(&line) {
        Some(AudioResponse::Status(s)) => assert_eq!(s, "Recording /rec/a.wav"),
        _ => panic!("status round trip failed"),
    }
    let line = encode_response(&AudioResponse::Error(String::from("Already recording")));
    match parse_response(&line) {
        Some(AudioResponse::Error(m)) => assert_eq!(m, "Already recording"),
        _ => panic!("error round trip failed"),
    }
    assert!(matches!(parse_response("\"Ok\""), Some(AudioResponse::Accepted)));
}

#[test]
fn parser_accepts_serde_json_output() {
    let mut object = serde_json::Map::new();
    object.insert(
        String::from("Start"),
        serde_json::Value::String(String::from("/rec/with\"quote\n.wav")),
    );
    let line = serde_json::to_string(&serde_json::Value::Object(object)).unwrap();
    match parse_command(&line) {
        Some(AudioCommand::Start(p)) => assert_eq!(p, "/rec/with\"quote\n.wav"),
        _ => panic!("serde_json-produced line must parse"),
    }
}

#[test]
fn parser_rejects_malformed_lines() {
    let rejected = [
        "",
        "nonsense",
        "\"Stop",
        "\"stop\"",
        "\"Stop\" ",
        "{\"Start\":\"x\"",
        "{\"Start\":\"x\"}junk",
        "{\"Start\":\"x}",
        "{\"Begin\":\"x\"}",
        "{\"Start\":\"bad\\q\"}",
        "{\"Start\":\"raw\u{1}control\"}",
        "{\"Start\":\"upper\\u001F\"}",
        "{\"Start\":\"short\\u0008\"}",
        "{\"Start\":\"high\\u0041\"}",
    ];
    for line in rejected {
        assert!(parse_command(line).is_none(), "must reject {:?}", line);
    }
    assert!(parse_response("\"ok\"").is_none());
    assert!(parse_response("{\"Status\":}").is_none());
}

#[test]
fn canonical_u_escape_is_decoded() {
    match parse_command("{\"Start\":\"a\\u001fb\\u0000c\"}") {
        Some(AudioCommand::Start(p)) => assert_eq!(p, "a\u{1f}b\u{0}c"),
        _ => panic!("canonical \\u escapes must parse"),
    }
}

#[test]
fn served_lines_run_the_whole_protocol() {
    let mut engine = CaptureEngine::new();

    let (resp, save) = handle_line(&mut engine, "not a command");
    assert_eq!(resp, "{\"Error\":\"Parse error\"}");
    assert!(save.is_none());

    let (resp, _) = handle_line(&mut engine, "{\"Start\":\"/rec/a.wav\"}");
    assert_eq!(resp, "{\"Error\":\"Format not known\"}");

    engine.on_format_negotiated(AudioFormat { sample_rate: 48000, channel_count: 2 });
    let (resp, _) = handle_line(&mut engine, "{\"Start\":\"/rec/a.wav\"}");
    assert_eq!(resp, "\"Ok\"");

    let (resp, _) = handle_line(&mut engine, "{\"Start\":\"/rec/b.wav\"}");
    assert_eq!(resp, "{\"Error\":\"Already recording\"}");

    let (resp, _) = handle_line(&mut engine, "\"Status\"");
    assert_eq!(resp, "{\"Status\":\"Recording /rec/a.wav\"}");

    engine.on_samples(&vec![1, 2, 3, 4]);
    let (resp, save) = handle_line(&mut engine, "\"Stop\"");
    assert_eq!(resp, "\"Ok\"");
    let save = save.expect("an accepted stop hands over the buffer");
    assert_eq!(save.samples, vec![1, 2, 3, 4]);
    assert_eq!(save.path, "/rec/a.wav");

    let (resp, save) = handle_line(&mut engine, "\"Stop\"");
    assert_eq!(resp, "{\"Error\":\"Not recording\"}");
    assert!(save.is_none());
}
