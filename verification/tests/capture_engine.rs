use soundboard::capture::{AudioFormat, CaptureEngine};
use soundboard::recorder::render_recording;
use soundboard::{AudioCommand, AudioResponse};

fn start(engine: &mut CaptureEngine, path: &str) -> AudioResponse {
    let (resp, save) = engine.handle(AudioCommand::Start(String::from(path)));
    assert!(save.is_none());
    resp
}

#[test]
fn start_refused_without_format() {
    let mut engine = CaptureEngine::new();
    match start(&mut engine, "/rec/a.wav") {
        AudioResponse::Error(m) => assert_eq!(m, "Format not known"),
        _ => panic!("start must be refused before a format is known"),
    }
    // Regardless of prior traffic, the same guard answers.
    let (resp, _) = engine.handle(AudioCommand::Status);
    match resp {
        AudioResponse::Status(s) => assert_eq!(s, "Listening"),
        _ => panic!("status never fails"),
    }
    match start(&mut engine, "/rec/b.wav") {
        AudioResponse::Error(m) => assert_eq!(m, "Format not known"),
        _ => panic!("start must still be refused"),
    }
}

#[test]
fn stop_refused_while_listening() {
    let mut engine = CaptureEngine::new();
    let (resp, save) = engine.handle(AudioCommand::Stop);
    assert!(save.is_none());
    match resp {
        AudioResponse::Error(m) => assert_eq!(m, "Not recording"),
        _ => panic!("stop while listening is a guard refusal"),
    }
}

#[test]
fn start_then_stop_without_samples_saves_nothing() {
    let mut engine = CaptureEngine::new();
    engine.on_format_negotiated(AudioFormat { sample_rate: 48000, channel_count: 2 });
    match start(&mut engine, "/rec/a.wav") {
        AudioResponse::Accepted => {},
        _ => panic!("start must be accepted"),
    }
    let (resp, save) = engine.handle(AudioCommand::Stop);
    match resp {
        AudioResponse::Accepted => {},
        _ => panic!("stop must be accepted"),
    }
    let save = save.expect("an accepted stop hands over a save request");
    assert_eq!(save.samples.len(), 0);
    // The writer's decision: an empty buffer earns no file.
    assert_eq!(render_recording(&save), Ok(None));
}

#[test]
fn second_start_refused_until_stop() {
    let mut engine = CaptureEngine::new();
    engine.on_format_negotiated(AudioFormat { sample_rate: 48000, channel_count: 2 });
    match start(&mut engine, "/rec/a.wav") {
        AudioResponse::Accepted => {},
        _ => panic!("first start must be accepted"),
    }
    match start(&mut engine, "/rec/b.wav") {
        AudioResponse::Error(m) => assert_eq!(m, "Already recording"),
        _ => panic!("second start must be refused"),
    }
    let (resp, save) = engine.handle(AudioCommand::Stop);
    match resp {
        AudioResponse::Accepted => {},
        _ => panic!("stop must be accepted"),
    }
    // The recording went to the first destination; the refused start left
    // no trace.
    let save = save.expect("save request");
    assert_eq!(save.path, "/rec/a.wav");
    // A fresh start is accepted again after the stop.
    match start(&mut engine, "/rec/b.wav") {
        AudioResponse::Accepted => {},
        _ => panic!("start must be accepted after stop"),
    }
}

#[test]
fn samples_are_buffered_only_while_recording() {
    let mut engine = CaptureEngine::new();
    engine.on_format_negotiated(AudioFormat { sample_rate: 44100, channel_count: 1 });
    let chunk: Vec<u32> = vec![1, 2, 3, 4];
    engine.on_samples(&chunk);  // listening: discarded
    assert!(matches!(start(&mut engine, "/rec/a.wav"), AudioResponse::Accepted));
    engine.on_samples(&chunk);
    engine.on_samples(&chunk);
    let (_, save) = engine.handle(AudioCommand::Stop);
    let save = save.expect("save request");
    assert_eq!(save.samples, vec![1, 2, 3, 4, 1, 2, 3, 4]);
}

#[test]
fn status_reports_destination_while_recording() {
    let mut engine = CaptureEngine::new();
    engine.on_format_negotiated(AudioFormat { sample_rate: 48000, channel_count: 2 });
    assert!(matches!(start(&mut engine, "/rec/a.wav"), AudioResponse::Accepted));
    let (resp, _) = engine.handle(AudioCommand::Status);
    match resp {
        AudioResponse::Status(s) => {
            assert_eq!(s, "Recording /rec/a.wav");
            assert!(!s.contains("Listening"));
        },
        _ => panic!("status never fails"),
    }
}

#[test]
fn renegotiation_ignored_while_recording() {
    let mut engine = CaptureEngine::new();
    engine.on_format_negotiated(AudioFormat { sample_rate: 48000, channel_count: 2 });
    assert!(matches!(start(&mut engine, "/rec/a.wav"), AudioResponse::Accepted));
    engine.on_format_negotiated(AudioFormat { sample_rate: 8000, channel_count: 1 });
    engine.on_samples(&vec![7, 8]);
    let (_, save) = engine.handle(AudioCommand::Stop);
    let save = save.expect("save request");
    // The recording keeps the format it began with.
    assert_eq!(save.format.sample_rate, 48000);
    assert_eq!(save.format.channel_count, 2);
}
