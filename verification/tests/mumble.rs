use bytes::Bytes;
use mumble_sip::announce::{Announcement, Announcer, QueueEvent, WaitFor};
use mumble_sip::call_events::{
    after_queueing, announcement_or_chime, speech_or_sound, CallEvents, EventAction, HandOver, HandOverStep,
};
use mumble_sip::config::TtsSection;
use mumble_sip::control::{
    auth_request, handle_packet, Handshake, HandshakeError, HandshakeStep, MumbleConfig,
    MumbleEvent, ServerPacket,
};
use mumble_sip::sounds::{SoundBank, SoundEvent};
use std::collections::HashMap;

fn config(password: &str) -> MumbleConfig {
    MumbleConfig {
        host: "mumble.example.com".to_string(),
        port: 64738,
        username: "quiet_river".to_string(),
        password: password.to_string(),
        channel: String::new(),
        accept_invalid_cert: false,
    }
}

#[test]
fn empty_password_is_not_sent() {
    let open = auth_request(&config(""));
    assert_eq!(open.username, "quiet_river");
    assert_eq!(open.password, None);
    assert!(open.opus);
    assert_eq!(auth_request(&config("word")).password.as_deref(), Some("word"));
}

fn crypt(key: usize, client_nonce: usize, server_nonce: usize) -> ServerPacket {
    ServerPacket::CryptSetup {
        key: vec![1; key],
        client_nonce: vec![2; client_nonce],
        server_nonce: vec![3; server_nonce],
    }
}

#[test]
fn login_collects_channels_until_the_server_synchronized() {
    let mut login = Handshake::new("Lobby");
    assert_eq!(login.on_packet(crypt(16, 16, 16)).unwrap(), HandshakeStep::ReadNext);
    assert!(login.crypt_ready());
    for (channel_id, name) in [(0, "Root"), (7, "Lobby"), (3, "Quiet")] {
        let packet = ServerPacket::ChannelState { channel_id, name: name.to_string() };
        assert_eq!(login.on_packet(packet).unwrap(), HandshakeStep::ReadNext);
    }
    assert_eq!(login.on_packet(ServerPacket::Other).unwrap(), HandshakeStep::ReadNext);
    assert_eq!(
        login.on_packet(ServerPacket::ServerSync { session: 12 }).unwrap(),
        HandshakeStep::LoggedIn
    );
    let client = login.finish().unwrap();
    assert_eq!(client.session_id(), 12);
    assert_eq!(client.channel_id(), 7);
    assert_eq!(client.max_channel_id(), 7);
    assert_eq!(client.channel_names().len(), 3);
    assert_eq!(client.channel_names()[&3], "Quiet");
}

#[test]
fn login_without_a_wanted_channel_stays_in_the_root() {
    let mut login = Handshake::new("");
    login
        .on_packet(ServerPacket::ChannelState { channel_id: 4, name: String::new() })
        .unwrap();
    login.on_packet(ServerPacket::ServerSync { session: 1 }).unwrap();
    let client = login.finish().unwrap();
    assert_eq!(client.channel_id(), 0);
    assert_eq!(client.max_channel_id(), 4);
}

#[test]
fn login_errors_name_their_cause() {
    let message = |packet| Handshake::new("").on_packet(packet).unwrap_err().message();
    assert_eq!(message(crypt(15, 1, 1)), "Invalid key size");
    assert_eq!(message(crypt(16, 17, 1)), "Invalid client_nonce size");
    assert_eq!(message(crypt(16, 16, 0)), "Invalid server_nonce size");
    assert_eq!(
        message(ServerPacket::Reject { reason: "wrong password".to_string() }),
        "Login rejected: wrong password"
    );
    let closed = Handshake::new("").finish().unwrap_err();
    assert!(matches!(closed, HandshakeError::ClosedBeforeSync));
    assert_eq!(closed.message(), "Connection closed before ServerSync");
}

#[test]
fn packets_become_events() {
    let audio = ServerPacket::OpusAudio {
        session_id: 4,
        seq_num: 8,
        data: Bytes::from_static(b"opus"),
    };
    match handle_packet(audio) {
        Some(MumbleEvent::AudioReceived { session_id, opus_data, seq_num }) => {
            assert_eq!((session_id, seq_num), (4, 8));
            assert_eq!(&opus_data[..], b"opus");
        }
        _ => panic!("expected audio"),
    }
    assert!(matches!(
        handle_packet(ServerPacket::UserState { session: 4, channel_id: Some(2) }),
        Some(MumbleEvent::UserChangedChannel { session_id: 4, channel_id: 2 })
    ));
    assert!(handle_packet(ServerPacket::UserState { session: 4, channel_id: None }).is_none());
    assert!(matches!(
        handle_packet(ServerPacket::UserRemove { session: 4 }),
        Some(MumbleEvent::UserDisconnected { session_id: 4 })
    ));
    match handle_packet(ServerPacket::TextMessage {
        sender_name: Some("Sam".to_string()),
        message: "hello".to_string(),
    }) {
        Some(MumbleEvent::TextMessageReceived { sender_name, message }) => {
            assert_eq!(sender_name.as_deref(), Some("Sam"));
            assert_eq!(message, "hello");
        }
        _ => panic!("expected a text message"),
    }
    match handle_packet(ServerPacket::ChannelState { channel_id: 2, name: "Lobby".to_string() }) {
        Some(MumbleEvent::ChannelState { channel_id, name }) => {
            assert_eq!(channel_id, 2);
            assert_eq!(name, "Lobby");
        }
        _ => panic!("expected a channel"),
    }
    assert!(handle_packet(ServerPacket::Other).is_none());
    assert!(handle_packet(ServerPacket::ServerSync { session: 1 }).is_none());
}

fn moved(session_id: u32, channel_id: u32) -> MumbleEvent {
    MumbleEvent::UserChangedChannel { session_id, channel_id }
}

fn room(tts_enabled: bool) -> CallEvents {
    let mut names = HashMap::new();
    names.insert(2, "Lobby".to_string());
    CallEvents::new(tts_enabled, 1, 2, names)
}

#[test]
fn visitors_are_heard_as_they_come_and_go() {
    let mut events = room(true);
    let joined = events.on_event(moved(5, 2), None);
    assert!(matches!(joined, EventAction::Play(SoundEvent::UserJoinedChannel)));
    let left = events.on_event(moved(5, 3), None);
    assert!(matches!(left, EventAction::Play(SoundEvent::UserLeftChannel)));
    assert!(matches!(events.on_event(moved(5, 4), None), EventAction::Nothing));
    let gone = MumbleEvent::UserDisconnected { session_id: 5 };
    assert!(matches!(events.on_event(gone, None), EventAction::Nothing));

    events.on_event(moved(6, 2), None);
    let gone = MumbleEvent::UserDisconnected { session_id: 6 };
    assert!(matches!(
        events.on_event(gone, None),
        EventAction::Play(SoundEvent::UserLeftChannel)
    ));
    let again = MumbleEvent::UserDisconnected { session_id: 6 };
    assert!(matches!(events.on_event(again, None), EventAction::Nothing));
}

#[test]
fn keys_change_which_channel_is_ours() {
    let mut events = room(true);
    assert!(matches!(
        events.on_event(moved(5, 3), Some(3)),
        EventAction::Play(SoundEvent::UserJoinedChannel)
    ));
    assert!(matches!(
        events.on_event(moved(6, 2), None),
        EventAction::Nothing
    ));
}

#[test]
fn own_moves_are_announced_once() {
    let mut events = room(true);
    let known = MumbleEvent::ChannelState { channel_id: 3, name: "Quiet".to_string() };
    assert!(matches!(events.on_event(known, None), EventAction::Nothing));
    match events.on_event(moved(1, 3), Some(3)) {
        EventAction::Announce { channel_id, channel_name } => {
            assert_eq!(channel_id, 3);
            assert_eq!(channel_name.as_deref(), Some("Quiet"));
        }
        _ => panic!("the move should be announced"),
    }
    assert!(matches!(events.on_event(moved(1, 3), None), EventAction::Nothing));
    match events.on_event(moved(1, 9), None) {
        EventAction::Announce { channel_name, .. } => assert_eq!(channel_name, None),
        _ => panic!("the move should be announced"),
    }
    assert_eq!(events.our_channel_id, 9);
    assert!(matches!(room(false).on_event(moved(1, 3), None), EventAction::Nothing));
}

#[test]
fn other_events_are_passed_on() {
    let text = || MumbleEvent::TextMessageReceived {
        sender_name: None,
        message: "hello".to_string(),
    };
    assert!(matches!(
        room(true).on_event(text(), None),
        EventAction::Speak { sender_name: None, .. }
    ));
    assert!(matches!(
        room(false).on_event(text(), None),
        EventAction::Play(SoundEvent::TextMessage)
    ));
    assert!(matches!(
        room(true).on_event(MumbleEvent::Disconnected, None),
        EventAction::Stop
    ));
    assert!(matches!(
        room(true).on_event(MumbleEvent::Connected { session_id: 1 }, None),
        EventAction::Nothing
    ));
    let audio = MumbleEvent::AudioReceived {
        session_id: 3,
        opus_data: Bytes::from_static(b"x"),
        seq_num: 0,
    };
    assert!(matches!(
        room(true).on_event(audio, None),
        EventAction::Decode { session_id: 3, .. }
    ));
}

#[test]
fn dropped_frames_are_reported_by_the_hundred() {
    let mut events = room(true);
    assert_eq!(events.on_hand_over(HandOver::Taken), HandOverStep::GoOn);
    for _ in 0..99 {
        assert_eq!(events.on_hand_over(HandOver::QueueFull), HandOverStep::GoOn);
    }
    assert_eq!(
        events.on_hand_over(HandOver::QueueFull),
        HandOverStep::Warn { dropped_frames: 100 }
    );
    assert_eq!(events.on_hand_over(HandOver::Closed), HandOverStep::Stop);
    assert_eq!(events.dropped_frames, 100);
}

#[test]
fn unspoken_messages_make_a_sound() {
    let bank = SoundBank {
        connected: vec![1],
        user_joined: vec![2],
        user_left: vec![3],
        text_message: vec![4, 4],
        intro: vec![5],
    };
    assert_eq!(speech_or_sound(&bank, Some(vec![7])), vec![7]);
    assert_eq!(speech_or_sound(&bank, None), vec![4, 4]);
    assert_eq!(announcement_or_chime(&bank, Some(vec![7])), vec![7]);
    assert_eq!(announcement_or_chime(&bank, None), vec![1]);
    assert!(matches!(after_queueing(true), EventAction::Nothing));
    assert!(matches!(after_queueing(false), EventAction::Play(SoundEvent::TextMessage)));
}

fn to(channel_id: u32) -> QueueEvent {
    QueueEvent::Next(Announcement { channel_id, channel_name: None })
}

fn announcer(enabled: bool, debounce_ms: u64) -> Announcer {
    let mut tts = TtsSection::default();
    tts.enabled = enabled;
    tts.announcement_debounce_ms = debounce_ms;
    Announcer::new(&tts)
}

#[test]
fn quick_moves_are_announced_once() {
    let mut announcer = announcer(true, 750);
    for channel_id in [3, 4, 5] {
        let step = announcer.on_event(to(channel_id));
        assert!(step.speak.is_none());
        assert_eq!(step.wait_for, WaitFor::NextOrQuiet { millis: 750 });
    }
    let step = announcer.on_event(QueueEvent::Quiet);
    assert_eq!(step.speak.unwrap().channel_id, 5);
    assert_eq!(step.wait_for, WaitFor::Next);

    announcer.on_event(to(6));
    announcer.on_event(to(5));
    assert!(announcer.on_event(QueueEvent::Quiet).speak.is_none());

    announcer.on_event(to(8));
    let step = announcer.on_event(QueueEvent::Closed);
    assert_eq!(step.speak.unwrap().channel_id, 8);
    assert_eq!(step.wait_for, WaitFor::Nothing);
}

#[test]
fn moves_without_a_wait_are_announced_at_once() {
    let mut instant = announcer(true, 0);
    let step = instant.on_event(to(3));
    assert_eq!(step.speak.unwrap().channel_id, 3);
    assert_eq!(step.wait_for, WaitFor::Next);
    assert!(instant.on_event(to(3)).speak.is_none());
    assert!(instant.on_event(QueueEvent::Closed).speak.is_none());

    let mut silent = announcer(false, 750);
    assert_eq!(silent.debounce_ms, 0);
    assert!(silent.on_event(to(3)).speak.is_none());
}

#[test]
fn channel_reported_last_under_the_wanted_name_is_joined() {
    let mut login = Handshake::new("Lobby");
    for (channel_id, name) in [(2, "Lobby"), (5, "Lobby"), (2, "Annex")] {
        login
            .on_packet(ServerPacket::ChannelState { channel_id, name: name.to_string() })
            .unwrap();
    }
    assert_eq!(login.target_channel_id(), Some(5));
    assert!(!login.crypt_ready());
    login.on_packet(ServerPacket::ServerSync { session: 1 }).unwrap();
    let client = login.finish().unwrap();
    assert_eq!(client.channel_id(), 5);
    assert_eq!(client.max_channel_id(), 5);
    assert_eq!(client.channel_names()[&2], "Annex");
    assert!(client.has_channel(2));
    assert!(!client.has_channel(3));
}
