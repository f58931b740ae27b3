use hound::{SampleFormat, WavSpec, WavWriter};
use mumble_sip::cache::CacheState;
use mumble_sip::config::TtsSection;
use mumble_sip::speech::{
    choose_reader, open_read_speech, open_streamed_speech, SampleReader, SpeechError,
    SpeechSamples, WavHeader,
};
use mumble_sip::tts::{
    after_first_check, after_poll, check_status, must_spawn, PocketTtsRuntime, ReadyStep,
    SidecarStatus, SynthesisStep, TtsError,
};
use mumble_sip::wav::normalize_streamed_wav;
use std::io::Cursor;

fn wav(channels: u16, sample_rate: u32, samples: &[i16]) -> Vec<u8> {
    let spec = WavSpec {
        channels,
        sample_rate,
        bits_per_sample: 16,
        sample_format: SampleFormat::Int,
    };
    let mut buf = Cursor::new(Vec::<u8>::new());
    {
        let mut writer = WavWriter::new(&mut buf, spec).expect("writer");
        for sample in samples {
            writer.write_sample(*sample).expect("sample");
        }
        writer.finalize().expect("finalize");
    }
    buf.into_inner()
}

fn data_offset(wav: &[u8]) -> usize {
    let mut offset = 12usize;
    while &wav[offset..offset + 4] != b"data" {
        let size = u32::from_le_bytes([
            wav[offset + 4],
            wav[offset + 5],
            wav[offset + 6],
            wav[offset + 7],
        ]) as usize;
        offset += 8 + size + (size % 2);
    }
    offset
}

#[test]
fn cache_state_updates_lru_order() {
    let mut cache = CacheState::new();
    cache.insert("a".to_string(), vec![1]);
    cache.insert("b".to_string(), vec![2]);
    let _ = cache.get("a");
    assert_eq!(cache.order.last().map(String::as_str), Some("a"));
}

#[test]
fn full_cache_drops_the_least_recently_used_phrase() {
    let mut cache = CacheState::new();
    for i in 0..64i16 {
        cache.insert(format!("phrase {}", i), vec![i]);
    }
    assert_eq!(cache.get("phrase 0"), Some(vec![0]));
    cache.insert("one more".to_string(), vec![99]);
    assert_eq!(cache.order.len(), 64);
    assert_eq!(cache.get("phrase 0"), Some(vec![0]));
    assert_eq!(cache.get("phrase 1"), None);
    assert_eq!(cache.get("one more"), Some(vec![99]));
    cache.insert("one more".to_string(), vec![7]);
    assert_eq!(cache.order.len(), 64);
    assert_eq!(cache.get("one more"), Some(vec![7]));
}

#[test]
fn decodes_streamed_wav_with_oversized_lengths() {
    let spec = WavSpec {
        channels: 1,
        sample_rate: 24_000,
        bits_per_sample: 16,
        sample_format: SampleFormat::Int,
    };

    let mut buf = Cursor::new(Vec::<u8>::new());
    {
        let mut writer = WavWriter::new(&mut buf, spec).expect("writer");
        for _ in 0..480 {
            writer.write_sample(1000i16).expect("sample");
        }
        writer.finalize().expect("finalize");
    }

    let mut wav = buf.into_inner();
    wav[4..8].copy_from_slice(&0x7fff_ff00u32.to_le_bytes());
    let mut offset = 12usize;
    while offset + 8 <= wav.len() {
        if &wav[offset..offset + 4] == b"data" {
            wav[offset + 4..offset + 8].copy_from_slice(&0x7fff_ff00u32.to_le_bytes());
            break;
        }
        let size = u32::from_le_bytes([
            wav[offset + 4],
            wav[offset + 5],
            wav[offset + 6],
            wav[offset + 7],
        ]) as usize;
        let step = 8 + size + (size % 2);
        offset += step;
    }

    let speech = open_streamed_speech(&wav).expect("decode");
    assert_eq!(speech.channels, 1);
    assert_eq!(speech.sample_rate, 24_000);
    match speech.samples {
        SpeechSamples::Integers { samples, full_scale } => {
            assert!(!samples.is_empty());
            assert_eq!(samples, vec![1000; 480]);
            assert_eq!(full_scale, 32768);
        }
        SpeechSamples::Floats { .. } => panic!("expected integers"),
    }
}

#[test]
fn interleaved_samples_keep_their_order() {
    let speech = open_streamed_speech(&wav(2, 48_000, &[1, -2, 3, -4])).expect("decode");
    assert_eq!(speech.channels, 2);
    match speech.samples {
        SpeechSamples::Integers { samples, .. } => assert_eq!(samples, vec![1, -2, 3, -4]),
        SpeechSamples::Floats { .. } => panic!("expected integers"),
    }
}

#[test]
fn float_streams_are_passed_on_whole() {
    let spec = WavSpec {
        channels: 1,
        sample_rate: 24_000,
        bits_per_sample: 32,
        sample_format: SampleFormat::Float,
    };
    let mut buf = Cursor::new(Vec::<u8>::new());
    {
        let mut writer = WavWriter::new(&mut buf, spec).expect("writer");
        writer.write_sample(0.5f32).expect("sample");
        writer.finalize().expect("finalize");
    }
    let bytes = buf.into_inner();
    match open_streamed_speech(&bytes).expect("decode").samples {
        SpeechSamples::Floats { stream } => assert_eq!(stream, bytes),
        SpeechSamples::Integers { .. } => panic!("expected floats"),
    }
}

#[test]
fn speech_errors_name_their_cause() {
    assert_eq!(
        open_streamed_speech(b"not a wav stream").unwrap_err(),
        SpeechError::InvalidStream
    );

    let mut cut = wav(1, 8_000, &[1, 2, 3, 4]);
    let at = data_offset(&cut);
    cut.truncate(at + 8 + 7);
    assert_eq!(open_streamed_speech(&cut).unwrap_err(), SpeechError::InvalidStream);

    let header = |channels, bits_per_sample, is_float| WavHeader {
        channels,
        sample_rate: 8_000,
        bits_per_sample,
        is_float,
    };
    assert_eq!(choose_reader(header(0, 16, false)), Err(SpeechError::NoChannels));
    assert_eq!(
        choose_reader(header(1, 33, false)),
        Err(SpeechError::UnsupportedFormat { is_float: false, bits_per_sample: 33 })
    );
    assert_eq!(
        choose_reader(header(1, 64, true)),
        Err(SpeechError::UnsupportedFormat { is_float: true, bits_per_sample: 64 })
    );
    assert_eq!(
        choose_reader(header(1, 32, false)),
        Ok(SampleReader::Integers { full_scale: 0x8000_0000 })
    );
    assert_eq!(
        choose_reader(header(1, 1, false)),
        Ok(SampleReader::Integers { full_scale: 1 })
    );
    assert_eq!(
        open_read_speech(Vec::new(), Some(header(1, 16, false)), None).unwrap_err(),
        SpeechError::UnreadableSample
    );
}

#[test]
fn repairing_sizes_touches_only_the_size_fields() {
    let whole = wav(1, 24_000, &[5, 6, 7]);
    let mut broken = whole.clone();
    let at = data_offset(&broken);
    broken[4..8].copy_from_slice(&0xffff_ffffu32.to_le_bytes());
    broken[at + 4..at + 8].copy_from_slice(&0xffff_ffffu32.to_le_bytes());
    assert_eq!(normalize_streamed_wav(&broken), whole);
    assert_eq!(normalize_streamed_wav(&whole), whole);
    assert_eq!(normalize_streamed_wav(b"short"), b"short".to_vec());
}

fn runtime(voice: &str) -> PocketTtsRuntime {
    let mut config = TtsSection::default();
    config.voice = voice.to_string();
    PocketTtsRuntime::new(config, 48_000)
}

#[test]
fn kept_phrases_are_not_requested_again() {
    let mut client = runtime("eponine");
    match client.synthesize_phrase("hello") {
        SynthesisStep::Request { allow_spawn, request } => {
            assert!(allow_spawn);
            assert_eq!(request.url, "http://127.0.0.1:8000/tts");
            assert_eq!(request.text, "hello");
            assert_eq!(request.voice_url.as_deref(), Some("eponine"));
        }
        SynthesisStep::Done { .. } => panic!("nothing was kept"),
    }
    client.keep("hello", vec![1, 2, 3]);
    match client.synthesize_phrase("hello") {
        SynthesisStep::Done { pcm } => assert_eq!(pcm, vec![1, 2, 3]),
        SynthesisStep::Request { .. } => panic!("the phrase was kept"),
    }
    assert!(matches!(
        client.synthesize_phrase("goodbye"),
        SynthesisStep::Request { .. }
    ));
}

#[test]
fn announcements_share_the_cache() {
    let mut client = runtime("  ");
    client.keep("You are now in channel 3", vec![9]);
    assert!(matches!(
        client.synth_channel_announcement(Some(" "), 3),
        SynthesisStep::Done { .. }
    ));
    match client.synth_channel_announcement(Some("Lobby"), 3) {
        SynthesisStep::Request { request, .. } => {
            assert_eq!(request.text, "You are now in the Lobby channel");
            assert_eq!(request.voice_url, None);
        }
        SynthesisStep::Done { .. } => panic!("nothing was kept"),
    }
    assert_eq!(client.health_url(), "http://127.0.0.1:8000/health");
    assert_eq!(
        client.sidecar_command(),
        vec!["uvx", "pocket-tts", "serve", "--port", "8000"]
    );
}

fn exited() -> SidecarStatus {
    SidecarStatus::Exited { status: "exit status: 1".to_string() }
}

#[test]
fn server_is_started_and_awaited() {
    assert!(matches!(after_first_check(true, false), ReadyStep::Ready));
    assert!(matches!(after_first_check(false, true), ReadyStep::Start));
    assert!(matches!(
        after_first_check(false, false),
        ReadyStep::Fail { error: TtsError::RestartDisabled }
    ));
    assert!(must_spawn(&SidecarStatus::Absent));
    assert!(must_spawn(&exited()));
    assert!(!must_spawn(&SidecarStatus::Running));
    assert!(matches!(
        after_poll(false, SidecarStatus::Running, false, 20_000),
        ReadyStep::Wait
    ));
    assert!(matches!(
        after_poll(true, SidecarStatus::Running, true, 20_000),
        ReadyStep::Ready
    ));
    match after_poll(false, exited(), false, 20_000) {
        ReadyStep::Fail { error: TtsError::SidecarExited { status } } => {
            assert_eq!(status, "exit status: 1");
        }
        _ => panic!("the server exited"),
    }
    assert!(matches!(
        after_poll(false, SidecarStatus::Unknown, false, 20_000),
        ReadyStep::Fail { error: TtsError::SidecarUnknown }
    ));
    assert!(matches!(
        after_poll(false, SidecarStatus::Running, true, 20_000),
        ReadyStep::Fail { error: TtsError::StartupTimeout { after_ms: 20_000 } }
    ));
    assert_eq!(check_status(200, "200 OK".to_string()), Ok(()));
    assert_eq!(
        check_status(503, "503 Service Unavailable".to_string()),
        Err(TtsError::BadStatus { status: "503 Service Unavailable".to_string() })
    );
}

#[test]
fn synthesis_errors_are_told_in_words() {
    assert_eq!(
        TtsError::RestartDisabled.message(),
        "pocket-tts sidecar not ready and auto_restart=false"
    );
    assert_eq!(
        TtsError::SidecarExited { status: "exit status: 1".to_string() }.message(),
        "pocket-tts sidecar exited before becoming ready (status=exit status: 1)"
    );
    assert_eq!(
        TtsError::SidecarUnknown.message(),
        "failed to query pocket-tts sidecar status"
    );
    assert_eq!(
        TtsError::StartupTimeout { after_ms: 20_000 }.message(),
        "pocket-tts sidecar did not become healthy within 20000ms"
    );
    assert_eq!(
        TtsError::BadStatus { status: "503 Service Unavailable".to_string() }.message(),
        "pocket-tts returned non-OK status 503 Service Unavailable"
    );
}

#[test]
fn speech_errors_are_told_in_words() {
    assert_eq!(SpeechError::InvalidStream.message(), "invalid WAV response");
    assert_eq!(SpeechError::NoChannels.message(), "WAV response has zero channels");
    assert_eq!(
        SpeechError::UnsupportedFormat { is_float: true, bits_per_sample: 64 }.message(),
        "unsupported WAV format: Float 64 bits"
    );
    assert_eq!(
        SpeechError::UnsupportedFormat { is_float: false, bits_per_sample: 33 }.message(),
        "unsupported WAV format: Int 33 bits"
    );
    assert_eq!(
        SpeechError::UnreadableSample.message(),
        "failed reading integer WAV sample"
    );
}
