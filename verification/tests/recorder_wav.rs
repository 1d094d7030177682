use std::io::Cursor;

use soundboard::capture::{AudioFormat, CaptureEngine, SaveRequest};
use soundboard::recorder::{render_recording, samples_from_le_bytes, RenderError};
use soundboard::{AudioCommand, AudioResponse};

fn save_request(samples: Vec<u32>, rate: u32, channels: u16, path: &str) -> SaveRequest {
    SaveRequest {
        samples,
        format: AudioFormat { sample_rate: rate, channel_count: channels },
        path: String::from(path),
    }
}

#[test]
fn empty_buffer_earns_no_file() {
    let save = save_request(vec![], 48000, 2, "/rec/a.wav");
    assert_eq!(render_recording(&save), Ok(None));
}

#[test]
fn zero_channels_refused() {
    let save = save_request(vec![1, 2], 48000, 0, "/rec/a.wav");
    assert_eq!(render_recording(&save), Err(RenderError::UnsupportedFormat));
}

#[test]
fn zero_rate_refused() {
    let save = save_request(vec![1, 2], 0, 2, "/rec/a.wav");
    assert_eq!(render_recording(&save), Err(RenderError::UnsupportedFormat));
}

#[test]
fn partial_frame_refused() {
    let save = save_request(vec![1, 2, 3], 48000, 2, "/rec/a.wav");
    assert_eq!(render_recording(&save), Err(RenderError::UnalignedBuffer));
}

#[test]
fn header_bytes_are_exact() {
    let bits = 0.5f32.to_bits();
    let save = save_request(vec![bits; 4], 44100, 1, "/rec/a.wav");
    let bytes = render_recording(&save).unwrap().unwrap();
    assert_eq!(bytes.len(), 44 + 16);
    assert_eq!(&bytes[0..4], b"RIFF");
    assert_eq!(&bytes[4..8], &(36u32 + 16).to_le_bytes());
    assert_eq!(&bytes[8..12], b"WAVE");
    assert_eq!(&bytes[12..16], b"fmt ");
    assert_eq!(&bytes[16..20], &16u32.to_le_bytes());
    assert_eq!(&bytes[20..22], &3u16.to_le_bytes()); // IEEE float
    assert_eq!(&bytes[22..24], &1u16.to_le_bytes()); // channels
    assert_eq!(&bytes[24..28], &44100u32.to_le_bytes());
    assert_eq!(&bytes[28..32], &(44100u32 * 4).to_le_bytes());
    assert_eq!(&bytes[32..34], &4u16.to_le_bytes()); // frame size
    assert_eq!(&bytes[34..36], &32u16.to_le_bytes());
    assert_eq!(&bytes[36..40], b"data");
    assert_eq!(&bytes[40..44], &16u32.to_le_bytes());
    assert_eq!(&bytes[44..48], &bits.to_le_bytes());
}

#[test]
fn hound_decodes_rendered_file() {
    // The round trip: samples framed here decode to the same sequence.
    let samples: Vec<f32> = vec![0.0, 0.25, -0.25, 1.0, -1.0, 0.125];
    let bits: Vec<u32> = samples.iter().map(|s| s.to_bits()).collect();
    let save = save_request(bits.clone(), 48000, 2, "/rec/a.wav");
    let bytes = render_recording(&save).unwrap().unwrap();

    let reader = hound::WavReader::new(Cursor::new(bytes)).expect("hound accepts the container");
    let spec = reader.spec();
    assert_eq!(spec.sample_rate, 48000);
    assert_eq!(spec.channels, 2);
    assert_eq!(spec.bits_per_sample, 32);
    assert_eq!(spec.sample_format, hound::SampleFormat::Float);
    let decoded: Vec<f32> = reader.into_samples::<f32>().map(|s| s.unwrap()).collect();
    assert_eq!(decoded, samples);
}

#[test]
fn full_session_matches_negotiated_format() {
    // Format negotiated at 48000 Hz / 2 channels; a short stereo burst is
    // recorded and lands in the file unchanged.
    let mut engine = CaptureEngine::new();
    engine.on_format_negotiated(AudioFormat { sample_rate: 48000, channel_count: 2 });
    let (resp, _) = engine.handle(AudioCommand::Start(String::from("/rec/a.wav")));
    assert!(matches!(resp, AudioResponse::Accepted));

    let chunk_values: Vec<f32> = (0..480).map(|i| (i as f32) / 480.0).collect();
    let chunk: Vec<u32> = chunk_values.iter().map(|s| s.to_bits()).collect();
    for _ in 0..10 {
        engine.on_samples(&chunk);
    }
    let (resp, save) = engine.handle(AudioCommand::Stop);
    assert!(matches!(resp, AudioResponse::Accepted));
    let save = save.expect("save request");
    assert_eq!(save.samples.len(), 4800);
    assert_eq!(save.path, "/rec/a.wav");

    let bytes = render_recording(&save).unwrap().unwrap();
    let reader = hound::WavReader::new(Cursor::new(bytes)).unwrap();
    assert_eq!(reader.spec().sample_rate, 48000);
    assert_eq!(reader.spec().channels, 2);
    let decoded: Vec<f32> = reader.into_samples::<f32>().map(|s| s.unwrap()).collect();
    assert_eq!(decoded.len(), 4800);
    for (i, v) in decoded.iter().enumerate() {
        assert_eq!(*v, chunk_values[i % 480]);
    }
}

#[test]
fn le_bytes_decode_matches_float_bits() {
    let values: Vec<f32> = vec![0.0, 1.0, -2.5, 3.25];
    let mut bytes: Vec<u8> = Vec::new();
    for v in &values {
        bytes.extend_from_slice(&v.to_le_bytes());
    }
    let samples = samples_from_le_bytes(&bytes);
    let expected: Vec<u32> = values.iter().map(|v| v.to_bits()).collect();
    assert_eq!(samples, expected);
}

#[test]
fn trailing_partial_group_is_dropped() {
    let bytes: Vec<u8> = vec![1, 0, 0, 0, 2, 0, 0];
    assert_eq!(samples_from_le_bytes(&bytes), vec![1u32]);
}
