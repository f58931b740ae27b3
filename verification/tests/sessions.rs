use mumble_sip::callbacks::{ActiveMedia, CleanupStep, MediaRegistry, PortCleanup};
use mumble_sip::calls::{CallSession, SetupTicket};
use mumble_sip::config::{Config, RawConfig, RawMumble, RawSip};
use mumble_sip::control::{Handshake, MumbleClient, ServerPacket};
use mumble_sip::db::{CallerInfo, StoreCommand};
use mumble_sip::session::{
    call_mumble_config, caller_identity, greeting, identity_from, rejoin_target, start_session,
    CallerLookup, DisconnectStep, DtmfStep, FinishStep, Greeting, SessionManager, SetupOutcome,
    SetupStage, SetupStep, BUSY_HERE, SERVICE_UNAVAILABLE,
};

fn test_config_with_max_calls(max: u32) -> Config {
    Config::from_raw(RawConfig {
        sip: RawSip {
            listen_port: Some(5060),
            account_uri: "sip:test@localhost".to_string(),
            registrar: None,
            username: None,
            password: None,
            max_concurrent_calls: Some(max),
        },
        mumble: RawMumble {
            default_host: "localhost".to_string(),
            port: None,
            username: None,
            password: None,
            channel: None,
            accept_invalid_cert: None,
        },
        audio: None,
        tts: None,
    })
}

fn test_session_manager() -> SessionManager {
    SessionManager::new(test_config_with_max_calls(10))
}

fn session(port: usize, current_channel_id: u32, max_channel_id: u32) -> CallSession {
    CallSession {
        port,
        current_channel_id,
        max_channel_id,
        caller_number: Some("5551234567".to_string()),
        server_host: "mumble.example.com".to_string(),
    }
}

fn client(channels: &[(u32, &str)], wanted: &str) -> MumbleClient {
    let mut handshake = Handshake::new(wanted);
    for (channel_id, name) in channels {
        handshake
            .on_packet(ServerPacket::ChannelState {
                channel_id: *channel_id,
                name: name.to_string(),
            })
            .expect("channel");
    }
    handshake.on_packet(ServerPacket::ServerSync { session: 9 }).expect("sync");
    handshake.finish().expect("login")
}

#[test]
fn cancel_pending_setup_cancels_token_but_preserves_entry() {
    let mut mgr = test_session_manager();
    mgr.pending_setups.insert(42, 0);
    assert!(!mgr.is_cancelled(0));

    let found = mgr.cancel_pending_setup(42);
    assert!(found);
    assert!(mgr.is_cancelled(0));
    assert_eq!(mgr.pending_setups.len(), 1);
}

#[test]
fn cancel_pending_setup_returns_false_for_unknown_call() {
    let mut mgr = test_session_manager();
    assert!(!mgr.cancel_pending_setup(999));
}

#[test]
fn remove_pending_setup_checks_generation() {
    let mut mgr = test_session_manager();
    mgr.pending_setups.insert(42, 5);

    assert!(!mgr.remove_pending_setup(42, 99));
    assert_eq!(mgr.pending_setups.len(), 1);

    assert!(mgr.remove_pending_setup(42, 5));
    assert!(mgr.pending_setups.is_empty());
}

#[test]
fn owns_call_id_checks_generation() {
    let mut mgr = test_session_manager();
    mgr.pending_setups.insert(42, 7);

    assert!(mgr.owns_call_id(42, 7));
    assert!(!mgr.owns_call_id(42, 99));
    assert!(!mgr.owns_call_id(999, 7));
}

#[test]
fn disconnect_during_intro_aborts_setup() {
    let mut mgr = test_session_manager();
    let mut media = MediaRegistry::new();
    let ticket = mgr.begin_setup(&mut media, 7, 700);
    assert!(matches!(
        mgr.on_call_disconnected(&mut media, 7),
        DisconnectStep::SetupCancelled { generation: 0 }
    ));
    let step = mgr.advance_setup(&mut media, ticket, true, SetupOutcome::CancelledDuringIntro);
    assert_eq!(
        step,
        SetupStep::Stop {
            cleanup: CleanupStep::Destroy { port: 700 },
            forget_media_ready: false,
            hang_up: None,
        }
    );
    assert!(mgr.sessions.is_empty());
    assert!(mgr.pending_setups.is_empty());
    assert!(!mgr.is_cancelled(0));
}

#[test]
fn disconnect_during_mumble_connect_aborts_via_select() {
    let mut mgr = test_session_manager();
    let mut media = MediaRegistry::new();
    let ticket = mgr.begin_setup(&mut media, 8, 800);
    media.unregister_pending_port(8);
    media.register_active_media(8, ActiveMedia { conf_port_id: 3, pool: 33 });
    mgr.on_call_disconnected(&mut media, 8);
    let step = mgr.advance_setup(&mut media, ticket, false, SetupOutcome::CancelledDuringConnect);
    assert_eq!(
        step,
        SetupStep::Stop {
            cleanup: CleanupStep::Remove { conf_port_id: 3 },
            forget_media_ready: false,
            hang_up: None,
        }
    );
    assert!(mgr.sessions.is_empty());
    assert!(mgr.pending_setups.is_empty());
    assert_eq!(
        media.take_pending_cleanup(3),
        Some(PortCleanup { port: 800, pool: Some(33) })
    );
}

#[test]
fn stale_task_does_not_clobber_recycled_call_id() {
    let mut mgr = test_session_manager();
    let call_id = 5;
    mgr.pending_setups.insert(call_id, 0);
    mgr.cancel_pending_setup(call_id);
    mgr.pending_setups.insert(call_id, 1);

    assert!(!mgr.owns_call_id(call_id, 0));
    mgr.remove_pending_setup(call_id, 0);

    assert!(mgr.owns_call_id(call_id, 1));
    assert!(!mgr.is_cancelled(1));
}

#[test]
fn stale_setup_leaves_the_new_call_its_media() {
    let mut mgr = test_session_manager();
    let mut media = MediaRegistry::new();
    let stale = mgr.begin_setup(&mut media, 5, 500);
    mgr.on_call_disconnected(&mut media, 5);
    let newer = mgr.begin_setup(&mut media, 5, 501);
    assert_eq!(newer, SetupTicket { call_id: 5, generation: 1, port: 501 });

    let step = mgr.advance_setup(&mut media, stale, false, SetupOutcome::ConnectFailed);
    assert_eq!(
        step,
        SetupStep::Stop {
            cleanup: CleanupStep::Defer(PortCleanup { port: 500, pool: None }),
            forget_media_ready: false,
            hang_up: None,
        }
    );
    assert!(mgr.owns_call_id(5, 1));
    assert_eq!(media.unregister_pending_port(5), Some(501));
}

#[test]
fn normal_setup_completes_when_no_disconnect() {
    let mut mgr = test_session_manager();
    let mut media = MediaRegistry::new();
    let ticket = mgr.begin_setup(&mut media, 10, 1000);
    let stages = [
        (SetupOutcome::Answered, SetupStage::AwaitMedia),
        (SetupOutcome::MediaReady, SetupStage::PlayIntro),
        (SetupOutcome::IntroPlayed, SetupStage::Connect),
        (SetupOutcome::Connected, SetupStage::Bridge),
    ];
    for (outcome, stage) in stages {
        assert_eq!(
            mgr.advance_setup(&mut media, ticket, true, outcome),
            SetupStep::Go(stage)
        );
    }
    assert_eq!(
        mgr.advance_setup(&mut media, ticket, false, SetupOutcome::MediaReady),
        SetupStep::Go(SetupStage::Connect)
    );
    assert_eq!(
        mgr.finish_setup(&mut media, ticket, session(1000, 2, 4)),
        FinishStep::Established
    );
    assert!(mgr.pending_setups.is_empty());
    assert_eq!(mgr.active_call_count(), 1);
}

#[test]
fn pending_setups_count_toward_max_concurrent_calls() {
    let mut mgr = SessionManager::new(test_config_with_max_calls(1));
    assert_eq!(mgr.refusal(), None);
    mgr.pending_setups.insert(100, 0);

    let total = mgr.sessions.len() + mgr.pending_setups.len();
    assert!(
        total >= mgr.config.sip.max_concurrent_calls as usize,
        "pending setup should count toward the concurrency limit"
    );
    assert_eq!(mgr.refusal(), Some(BUSY_HERE));
    assert_eq!(BUSY_HERE, 486);
}

#[test]
fn failed_stages_say_what_is_left_to_undo() {
    let outcomes = [
        (SetupOutcome::AnswerFailed, true, None),
        (SetupOutcome::MediaLost, false, None),
        (SetupOutcome::CancelledBeforeMedia, true, None),
        (SetupOutcome::CancelledDuringIntro, false, None),
        (SetupOutcome::ConnectFailed, false, Some(SERVICE_UNAVAILABLE)),
        (SetupOutcome::CancelledDuringConnect, false, None),
    ];
    assert_eq!(SERVICE_UNAVAILABLE, 503);
    for (outcome, forget_media_ready, hang_up) in outcomes {
        let mut mgr = test_session_manager();
        let mut media = MediaRegistry::new();
        let ticket = mgr.begin_setup(&mut media, 1, 100);
        assert_eq!(
            mgr.advance_setup(&mut media, ticket, false, outcome),
            SetupStep::Stop {
                cleanup: CleanupStep::Destroy { port: 100 },
                forget_media_ready,
                hang_up,
            }
        );
    }
}

#[test]
fn port_between_the_lists_is_freed_after_a_while() {
    let mut mgr = test_session_manager();
    let mut media = MediaRegistry::new();
    let ticket = mgr.begin_setup(&mut media, 1, 100);
    media.unregister_pending_port(1);
    assert_eq!(
        mgr.abort_setup(&mut media, ticket),
        (true, CleanupStep::Defer(PortCleanup { port: 100, pool: None }))
    );
}

#[test]
fn late_hang_up_never_leaves_a_session() {
    let mut mgr = test_session_manager();
    let mut media = MediaRegistry::new();
    let ticket = mgr.begin_setup(&mut media, 1, 100);
    media.unregister_pending_port(1);
    media.register_active_media(1, ActiveMedia { conf_port_id: 6, pool: 66 });
    mgr.on_call_disconnected(&mut media, 1);
    assert_eq!(
        mgr.finish_setup(&mut media, ticket, session(100, 0, 0)),
        FinishStep::Discard { cleanup: CleanupStep::Remove { conf_port_id: 6 } }
    );
    assert_eq!(mgr.active_call_count(), 0);

    let ticket = mgr.begin_setup(&mut media, 1, 101);
    mgr.on_call_disconnected(&mut media, 1);
    assert_eq!(
        mgr.finish_setup(&mut media, ticket, session(101, 0, 0)),
        FinishStep::Discard { cleanup: CleanupStep::Leave }
    );

    let stale = mgr.begin_setup(&mut media, 1, 102);
    mgr.on_call_disconnected(&mut media, 1);
    mgr.begin_setup(&mut media, 1, 103);
    assert_eq!(
        mgr.finish_setup(&mut media, stale, session(102, 0, 0)),
        FinishStep::Discard {
            cleanup: CleanupStep::Defer(PortCleanup { port: 102, pool: None }),
        }
    );
    assert_eq!(mgr.active_call_count(), 0);
    assert_eq!(mgr.pending_setups.len(), 1);
}

#[test]
fn generations_come_round() {
    let mut mgr = test_session_manager();
    let mut media = MediaRegistry::new();
    mgr.next_setup_generation = u64::MAX;
    assert_eq!(mgr.begin_setup(&mut media, 1, 100).generation, u64::MAX);
    assert_eq!(mgr.begin_setup(&mut media, 2, 200).generation, 0);
}

#[test]
fn keys_navigate_within_the_channels() {
    let mut mgr = test_session_manager();
    mgr.sessions.insert(1, session(100, 1, 2));
    assert_eq!(mgr.on_dtmf_digit(9, '#'), DtmfStep::Ignore);
    assert_eq!(mgr.on_dtmf_digit(1, '5'), DtmfStep::Ignore);
    assert_eq!(mgr.on_dtmf_digit(1, '1'), DtmfStep::PlayIntro);
    assert_eq!(mgr.on_dtmf_digit(1, '*'), DtmfStep::Navigate { channel_id: 0 });
    assert_eq!(mgr.on_dtmf_digit(1, '#'), DtmfStep::Navigate { channel_id: 2 });

    assert!(!mgr.on_join_result(1, 2, false));
    assert_eq!(mgr.sessions[&1].current_channel_id, 1);
    assert!(mgr.on_join_result(1, 2, true));
    assert_eq!(mgr.on_dtmf_digit(1, '#'), DtmfStep::Navigate { channel_id: 2 });
    assert_eq!(mgr.on_dtmf_digit(1, '*'), DtmfStep::Navigate { channel_id: 1 });
    assert!(mgr.on_join_result(1, 0, true));
    assert_eq!(mgr.on_dtmf_digit(1, '*'), DtmfStep::Navigate { channel_id: 0 });
    assert!(!mgr.on_join_result(9, 0, true));

    mgr.sessions.insert(2, session(200, u32::MAX, u32::MAX));
    assert_eq!(
        mgr.on_dtmf_digit(2, '#'),
        DtmfStep::Navigate { channel_id: u32::MAX }
    );
}

#[test]
fn hanging_up_saves_the_channel() {
    let mut mgr = test_session_manager();
    let mut media = MediaRegistry::new();
    mgr.sessions.insert(1, session(100, 3, 4));
    media.register_active_media(1, ActiveMedia { conf_port_id: 2, pool: 22 });
    match mgr.on_call_disconnected(&mut media, 1) {
        DisconnectStep::TearDown { save, cleanup } => {
            assert_eq!(cleanup, CleanupStep::Remove { conf_port_id: 2 });
            match save {
                Some(StoreCommand::SetChannel { phone_number, server_host, channel_id }) => {
                    assert_eq!(phone_number, "5551234567");
                    assert_eq!(server_host, "mumble.example.com");
                    assert_eq!(channel_id, 3);
                }
                _ => panic!("the channel should be saved"),
            }
        }
        _ => panic!("there was a session"),
    }
    assert_eq!(mgr.active_call_count(), 0);
    assert_eq!(media.after_removal(2, 0), CleanupStep::Leave);
    assert_eq!(
        media.after_removal(2, 70013),
        CleanupStep::Defer(PortCleanup { port: 100, pool: Some(22) })
    );
    assert_eq!(media.after_removal(2, 70013), CleanupStep::Leave);
    assert!(matches!(
        mgr.on_call_disconnected(&mut media, 1),
        DisconnectStep::Nothing
    ));
}

#[test]
fn anonymous_calls_save_no_channel() {
    let mut mgr = test_session_manager();
    let mut media = MediaRegistry::new();
    let mut anonymous = session(100, 3, 4);
    anonymous.caller_number = None;
    mgr.sessions.insert(1, anonymous);
    media.register_pending_port(1, 100);
    assert!(matches!(
        mgr.on_call_disconnected(&mut media, 1),
        DisconnectStep::TearDown { save: None, cleanup: CleanupStep::Destroy { port: 100 } }
    ));

    mgr.sessions.insert(2, session(200, 0, 0));
    assert!(matches!(
        mgr.on_call_disconnected(&mut media, 2),
        DisconnectStep::TearDown { save: Some(_), cleanup: CleanupStep::Leave }
    ));
}

#[test]
fn callers_are_shown_by_nickname() {
    let found = || CallerLookup::Found {
        info: CallerInfo {
            phone_number: "5551234567".to_string(),
            nickname: "quiet_river".to_string(),
            last_seen: 1_000,
            is_new: false,
        },
        last_channel_id: Some(4),
    };
    let known = caller_identity(found(), 1_000 + 86_400 * 30, 30);
    assert_eq!(known.username, "quiet_river");
    assert_eq!(known.last_channel_id, Some(4));
    assert!(known.play_intro);
    assert!(!identity_from(found(), "x_y".to_string(), 2_000, 30).play_intro);

    let unknown = caller_identity(CallerLookup::NoNumber, 2_000, 30);
    assert!(unknown.username.contains('_'));
    assert_eq!(unknown.last_channel_id, None);
    assert!(!unknown.play_intro);
    let failed = identity_from(CallerLookup::Failed, "x_y".to_string(), 2_000, 0);
    assert_eq!(failed.username, "x_y");
    assert!(!failed.play_intro);

    let config = test_config_with_max_calls(1);
    let mumble = call_mumble_config(&config, Some("other.example.com"), &known);
    assert_eq!(mumble.username, "quiet_river");
    assert_eq!(mumble.host, "other.example.com");
    assert_eq!(call_mumble_config(&config, None, &known).host, "localhost");
}

#[test]
fn last_channel_is_rejoined_where_it_exists() {
    let client = client(&[(0, "Root"), (2, "Lobby"), (5, "Quiet")], "Lobby");
    assert_eq!(client.channel_id(), 2);
    assert_eq!(client.max_channel_id(), 5);
    assert_eq!(rejoin_target(&client, None), None);
    assert_eq!(rejoin_target(&client, Some(2)), None);
    assert_eq!(rejoin_target(&client, Some(5)), Some(5));
    assert_eq!(rejoin_target(&client, Some(3)), None);
    assert_eq!(rejoin_target(&client, Some(6)), None);

    let there = start_session(&client, Some(5), true, 100, None, "host".to_string());
    assert_eq!(there.current_channel_id, 5);
    assert_eq!(there.max_channel_id, 5);
    let stayed = start_session(&client, None, false, 100, None, "host".to_string());
    assert_eq!(stayed.current_channel_id, 2);
    let failed = start_session(&client, Some(5), false, 100, None, "host".to_string());
    assert_eq!(failed.current_channel_id, 2);

    let mut config = test_config_with_max_calls(1);
    assert!(matches!(greeting(&config.tts, 5, &client.channel_names()), Greeting::Chime));
    config.tts.enabled = true;
    match greeting(&config.tts, 5, &client.channel_names()) {
        Greeting::Announce { channel_id, channel_name } => {
            assert_eq!(channel_id, 5);
            assert_eq!(channel_name.as_deref(), Some("Quiet"));
        }
        Greeting::Chime => panic!("the channel should be announced"),
    }
    config.tts.announce_on_connect = false;
    assert!(matches!(greeting(&config.tts, 5, &client.channel_names()), Greeting::Chime));
}

#[test]
fn ended_calls_leave_no_trace() {
    let mut mgr = test_session_manager();
    let mut media = MediaRegistry::new();
    let ticket = mgr.begin_setup(&mut media, 1, 100);
    mgr.finish_setup(&mut media, ticket, session(100, 0, 3));
    mgr.on_call_disconnected(&mut media, 1);
    assert!(mgr.sessions.is_empty());
    assert!(mgr.pending_setups.is_empty());
    assert!(mgr.cancelled_setups.is_empty());
    assert!(media.pending_ports.is_empty());
    assert!(media.active_media.is_empty());
}

#[test]
fn calls_do_not_disturb_each_other() {
    let mut mgr = SessionManager::new(test_config_with_max_calls(2));
    let mut media = MediaRegistry::new();
    let one = mgr.begin_setup(&mut media, 1, 100);
    let two = mgr.begin_setup(&mut media, 2, 200);
    assert_eq!(mgr.refusal(), Some(BUSY_HERE));
    mgr.finish_setup(&mut media, two, session(200, 1, 3));
    mgr.on_call_disconnected(&mut media, 1);
    assert_eq!(mgr.refusal(), Some(BUSY_HERE));
    mgr.abort_setup(&mut media, one);
    assert_eq!(mgr.refusal(), None);
    assert_eq!(mgr.sessions[&2].current_channel_id, 1);
    assert_eq!(media.unregister_pending_port(1), None);
    assert_eq!(media.unregister_pending_port(2), Some(200));
}
