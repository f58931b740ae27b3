use mumble_sip::bridge::{AudioBridge, EncodeStep, EncoderState, SAMPLES_PER_FRAME};
use mumble_sip::config::AudioSection;
use mumble_sip::media_port::{create_audio_buffers, get_frame, put_frame, FrameKind};
use mumble_sip::sounds::{
    decode_wav_48k, get_sound, sound_duration, sound_file, wav_defect, LoadStep, SoundBank,
    SoundEvent, WavDefect,
};

fn bank() -> SoundBank {
    SoundBank {
        connected: vec![1; 48_000],
        user_joined: vec![2; 3],
        user_left: vec![3; 5],
        text_message: vec![4; 1],
        intro: vec![5; 24_000],
    }
}

#[test]
fn sounds_are_chosen_by_event() {
    let bank = bank();
    assert_eq!(get_sound(&bank, SoundEvent::SelfJoinedChannel), bank.connected);
    assert_eq!(get_sound(&bank, SoundEvent::UserJoinedChannel), bank.user_joined);
    assert_eq!(get_sound(&bank, SoundEvent::UserLeftChannel), bank.user_left);
    assert_eq!(get_sound(&bank, SoundEvent::TextMessage), bank.text_message);
    assert_eq!(get_sound(&bank, SoundEvent::Intro), bank.intro);
}

#[test]
fn durations_match_the_playout_rate() {
    let bank = bank();
    let second = sound_duration(&bank, SoundEvent::SelfJoinedChannel, 48_000);
    assert_eq!((second.secs, second.nanos), (1, 0));
    let half = sound_duration(&bank, SoundEvent::Intro, 48_000);
    assert_eq!((half.secs, half.nanos), (0, 500_000_000));
    let slow = sound_duration(&bank, SoundEvent::Intro, 8_000);
    assert_eq!((slow.secs, slow.nanos), (3, 0));
    for (event, len) in [
        (SoundEvent::UserJoinedChannel, 3usize),
        (SoundEvent::UserLeftChannel, 5),
        (SoundEvent::TextMessage, 1),
    ] {
        for rate in [7u32, 8_000, 11_025, 44_100, 48_000] {
            let exact = sound_duration(&bank, event, rate);
            let float = std::time::Duration::from_secs_f64(len as f64 / rate as f64);
            assert_eq!(float, std::time::Duration::new(exact.secs, exact.nanos));
        }
    }
}

fn mono_wav(rate: u32, samples: &[i16]) -> Vec<u8> {
    let mut out = Vec::new();
    out.extend_from_slice(b"RIFF");
    out.extend_from_slice(&(36 + 2 * samples.len() as u32).to_le_bytes());
    out.extend_from_slice(b"WAVEfmt ");
    out.extend_from_slice(&16u32.to_le_bytes());
    out.extend_from_slice(&1u16.to_le_bytes());
    out.extend_from_slice(&1u16.to_le_bytes());
    out.extend_from_slice(&rate.to_le_bytes());
    out.extend_from_slice(&(2 * rate).to_le_bytes());
    out.extend_from_slice(&2u16.to_le_bytes());
    out.extend_from_slice(&16u16.to_le_bytes());
    out.extend_from_slice(b"data");
    out.extend_from_slice(&(2 * samples.len() as u32).to_le_bytes());
    for sample in samples {
        out.extend_from_slice(&sample.to_le_bytes());
    }
    out
}

#[test]
fn sound_effects_are_read_sample_by_sample() {
    let clip = decode_wav_48k(&mono_wav(48_000, &[0, 1, -1, i16::MAX, i16::MIN]));
    assert_eq!(clip.sample_rate, 48_000);
    assert_eq!(clip.samples, vec![0, 1, -1, i16::MAX, i16::MIN]);
    let mut odd = mono_wav(44_100, &[7, 8]);
    odd.push(9);
    assert_eq!(decode_wav_48k(&odd).samples, vec![7, 8]);
}

#[test]
fn defects_of_sound_effects_are_found() {
    let good = mono_wav(48_000, &[1]);
    assert_eq!(wav_defect(&good), None);
    assert_eq!(wav_defect(&good[..43]), Some(WavDefect::TooShort));
    let with = |at: usize, byte: u8| {
        let mut bad = good.clone();
        bad[at] = byte;
        wav_defect(&bad)
    };
    assert_eq!(with(0, b'X'), Some(WavDefect::NotRiff));
    assert_eq!(with(8, b'X'), Some(WavDefect::NotWave));
    assert_eq!(with(20, 3), Some(WavDefect::NotPcm));
    assert_eq!(with(22, 2), Some(WavDefect::NotMono));
    assert_eq!(with(34, 8), Some(WavDefect::NotSixteenBit));
    assert_eq!(wav_defect(&mono_wav(0, &[1])), Some(WavDefect::NoSampleRate));
}

#[test]
fn frames_travel_through_the_buffers() {
    let mut buffers = create_audio_buffers(8);
    assert_eq!(put_frame(&mut buffers.sip_to_mumble_prod, FrameKind::Other, &[1, 2]), 0);
    assert_eq!(put_frame(&mut buffers.sip_to_mumble_prod, FrameKind::Audio, &[1, 2, 3]), 3);
    assert_eq!(
        put_frame(&mut buffers.sip_to_mumble_prod, FrameKind::Audio, &[4, 5, 6, 7, 8, 9, 10]),
        5
    );
    let mut frame = [-1i16; 6];
    assert_eq!(get_frame(&mut buffers.sip_to_mumble_cons, &mut frame), FrameKind::Audio);
    assert_eq!(frame, [1, 2, 3, 4, 5, 6]);
    assert_eq!(get_frame(&mut buffers.sip_to_mumble_cons, &mut frame), FrameKind::Audio);
    assert_eq!(frame, [7, 8, 0, 0, 0, 0]);
    assert_eq!(get_frame(&mut buffers.sip_to_mumble_cons, &mut frame), FrameKind::Silence);
    assert_eq!(frame, [0; 6]);
    assert_eq!(get_frame(&mut buffers.mumble_to_sip_cons, &mut frame), FrameKind::Silence);
}

#[test]
fn decoded_samples_reach_the_caller() {
    let mut buffers = create_audio_buffers(4);
    assert_eq!(
        AudioBridge::deliver_frame(&mut buffers.mumble_to_sip_prod, &[1, 2, 3, 4, 5, 6], 3),
        3
    );
    assert_eq!(
        AudioBridge::deliver_frame(&mut buffers.mumble_to_sip_prod, &[7, 8, 9], 2),
        1
    );
    let mut frame = [0i16; 5];
    assert_eq!(get_frame(&mut buffers.mumble_to_sip_cons, &mut frame), FrameKind::Audio);
    assert_eq!(frame, [1, 2, 3, 7, 0]);
}

#[test]
fn encoder_takes_whole_frames() {
    let mut buffers = create_audio_buffers(1_000);
    let mut pcm = vec![0i16; SAMPLES_PER_FRAME];
    put_frame(&mut buffers.sip_to_mumble_prod, FrameKind::Audio, &[9; 479]);
    assert!(!AudioBridge::take_frame(&mut buffers.sip_to_mumble_cons, &mut pcm));
    assert_eq!(pcm, vec![0; SAMPLES_PER_FRAME]);
    put_frame(&mut buffers.sip_to_mumble_prod, FrameKind::Audio, &[8; 2]);
    assert!(AudioBridge::take_frame(&mut buffers.sip_to_mumble_cons, &mut pcm));
    assert_eq!(&pcm[..479], &[9; 479]);
    assert_eq!(pcm[479], 8);
    assert!(!AudioBridge::take_frame(&mut buffers.sip_to_mumble_cons, &mut pcm));
}

#[test]
fn frames_are_whole_and_consecutive() {
    let mut buffers = create_audio_buffers(2_000);
    let samples: Vec<i16> = (0..1_000).collect();
    put_frame(&mut buffers.sip_to_mumble_prod, FrameKind::Audio, &samples);
    let mut pcm = vec![0i16; SAMPLES_PER_FRAME];
    assert!(AudioBridge::take_frame(&mut buffers.sip_to_mumble_cons, &mut pcm));
    assert_eq!(pcm[..], samples[..480]);
    assert!(AudioBridge::take_frame(&mut buffers.sip_to_mumble_cons, &mut pcm));
    assert_eq!(pcm[..], samples[480..960]);
    assert!(!AudioBridge::take_frame(&mut buffers.sip_to_mumble_cons, &mut pcm));
    put_frame(&mut buffers.sip_to_mumble_prod, FrameKind::Audio, &[-1; 440]);
    assert!(AudioBridge::take_frame(&mut buffers.sip_to_mumble_cons, &mut pcm));
    assert_eq!(pcm[..40], samples[960..]);
    assert_eq!(pcm[40..], [-1; 440]);
}

#[test]
fn frames_are_taken_by_the_number_found_waiting() {
    let mut buffers = create_audio_buffers(1_000);
    let mut pcm = vec![0i16; SAMPLES_PER_FRAME];
    put_frame(&mut buffers.sip_to_mumble_prod, FrameKind::Audio, &[9; 500]);
    assert!(!AudioBridge::take_waiting_frame(&mut buffers.sip_to_mumble_cons, 479, &mut pcm));
    assert_eq!(pcm, vec![0; SAMPLES_PER_FRAME]);
    assert!(AudioBridge::take_waiting_frame(&mut buffers.sip_to_mumble_cons, 480, &mut pcm));
    assert_eq!(pcm, vec![9; SAMPLES_PER_FRAME]);
    assert!(AudioBridge::take_waiting_frame(&mut buffers.sip_to_mumble_cons, 480, &mut pcm));
    assert_eq!(&pcm[..20], &[9; 20]);
    assert_eq!(&pcm[20..], &[0; 460]);
}

#[test]
fn frame_numbers_count_delivered_frames() {
    let mut encoder = EncoderState::new();
    assert_eq!(
        encoder.after_encode(Some(60)),
        EncodeStep::Send { seq_num: 0, len: 60 }
    );
    assert!(encoder.after_send(true));
    assert_eq!(encoder.after_encode(None), EncodeStep::Skip);
    assert_eq!(
        encoder.after_encode(Some(61)),
        EncodeStep::Send { seq_num: 1, len: 61 }
    );
    assert!(!encoder.after_send(false));
    assert_eq!(encoder.seq_num, 1);
}

#[test]
fn audio_path_is_sized_from_the_configuration() {
    let mut audio = AudioSection::default();
    audio.sample_rate = 48_000;
    audio.jitter_buffer_ms = 60;
    let plan = AudioBridge::plan(&audio, 10);
    assert_eq!(plan.samples_per_frame, 480);
    assert_eq!(plan.jitter_frames, 6);
    assert_eq!(plan.queue_capacity, 60);
    assert_eq!(plan.buffer_samples, 9_600);
    audio.jitter_buffer_ms = 5;
    assert_eq!(AudioBridge::plan(&audio, 3).jitter_frames, 2);
}

#[test]
fn sounds_come_from_their_files() {
    let files = [
        (SoundEvent::SelfJoinedChannel, "ServerConnected.wav", 1),
        (SoundEvent::UserJoinedChannel, "UserJoinedChannel.wav", 2),
        (SoundEvent::UserLeftChannel, "UserLeftChannel.wav", 3),
        (SoundEvent::TextMessage, "TextMessage.wav", 4),
        (SoundEvent::Intro, "intro.wav", 5),
    ];
    let mut bank = SoundBank::silent();
    for (event, name, sample) in files {
        assert_eq!(sound_file(event), name);
        assert!(get_sound(&bank, event).is_empty());
        assert!(matches!(
            bank.load(event, &mono_wav(48_000, &[sample, -sample])),
            LoadStep::Loaded
        ));
    }
    for (event, _, sample) in files {
        let mut played = get_sound(&bank, event);
        assert_eq!(played, vec![sample, -sample]);
        played.clear();
        assert_eq!(get_sound(&bank, event), vec![sample, -sample]);
    }
}

#[test]
fn sounds_at_other_rates_are_handed_back() {
    let mut bank = bank();
    match bank.load(SoundEvent::Intro, &mono_wav(24_000, &[6, 7])) {
        LoadStep::Resample(clip) => {
            assert_eq!(clip.sample_rate, 24_000);
            assert_eq!(clip.samples, vec![6, 7]);
        }
        _ => panic!("the file is to be resampled"),
    }
    assert_eq!(get_sound(&bank, SoundEvent::Intro), vec![5; 24_000]);
    assert!(matches!(
        bank.load(SoundEvent::Intro, b"short"),
        LoadStep::Defective(WavDefect::TooShort)
    ));
    bank.store(SoundEvent::Intro, vec![6, 6, 7]);
    assert_eq!(get_sound(&bank, SoundEvent::Intro), vec![6, 6, 7]);
    assert_eq!(get_sound(&bank, SoundEvent::TextMessage), vec![4; 1]);
}

#[test]
fn freed_places_are_used_again() {
    let mut buffers = create_audio_buffers(4);
    assert_eq!(put_frame(&mut buffers.sip_to_mumble_prod, FrameKind::Audio, &[1, 2, 3, 4, 5]), 4);
    assert_eq!(put_frame(&mut buffers.sip_to_mumble_prod, FrameKind::Audio, &[6]), 0);
    let mut frame = [0i16; 3];
    get_frame(&mut buffers.sip_to_mumble_cons, &mut frame);
    assert_eq!(put_frame(&mut buffers.sip_to_mumble_prod, FrameKind::Audio, &[6, 7]), 2);
    assert_eq!(put_frame(&mut buffers.sip_to_mumble_prod, FrameKind::Audio, &[8, 9]), 1);
    let mut rest = [0i16; 5];
    get_frame(&mut buffers.sip_to_mumble_cons, &mut rest);
    assert_eq!(rest, [4, 6, 7, 8, 0]);
}
