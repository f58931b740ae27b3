use mumble_sip::callbacks::{action_on, header_value, last_action_on, CallAction, SipEvent};

#[test]
fn header_values_are_decoded_and_trimmed() {
    assert_eq!(header_value(None), None);
    assert_eq!(header_value(Some(b"")), None);
    assert_eq!(
        header_value(Some(b"  mumble.example.com \r\n")).as_deref(),
        Some("mumble.example.com")
    );
    assert_eq!(header_value(Some(b"   ")).as_deref(), Some(""));
    assert_eq!(header_value(Some(b"a\xffb")).as_deref(), Some("a\u{fffd}b"));
    assert_eq!(
        header_value(Some("h\u{f6}st\u{2003}".as_bytes())).as_deref(),
        Some("h\u{f6}st")
    );
}

fn incoming() -> SipEvent {
    SipEvent::IncomingCall {
        acc_id: 0,
        call_id: 4,
        mumble_server: Some("mumble.example.com".to_string()),
        caller_number: Some("5551234567".to_string()),
    }
}

#[test]
fn events_lead_to_actions() {
    match action_on(Some(incoming())) {
        CallAction::SetUp { call_id, mumble_server, caller_number } => {
            assert_eq!(call_id, 4);
            assert_eq!(mumble_server.as_deref(), Some("mumble.example.com"));
            assert_eq!(caller_number.as_deref(), Some("5551234567"));
        }
        _ => panic!("the call should be set up"),
    }
    assert!(matches!(
        action_on(Some(SipEvent::CallStateChanged { call_id: 4, state: 6 })),
        CallAction::TearDown { call_id: 4 }
    ));
    assert!(matches!(
        action_on(Some(SipEvent::CallStateChanged { call_id: 4, state: 5 })),
        CallAction::Wait
    ));
    assert!(matches!(
        action_on(Some(SipEvent::DtmfDigit { call_id: 4, digit: '#' })),
        CallAction::Press { call_id: 4, digit: '#' }
    ));
    assert!(matches!(
        action_on(Some(SipEvent::CallMediaStateChanged { call_id: 4 })),
        CallAction::Wait
    ));
    assert!(matches!(action_on(None), CallAction::Leave));
}

#[test]
fn shutdown_only_ends_calls() {
    assert!(matches!(last_action_on(Some(incoming())), CallAction::Wait));
    assert!(matches!(
        last_action_on(Some(SipEvent::DtmfDigit { call_id: 4, digit: '#' })),
        CallAction::Wait
    ));
    assert!(matches!(
        last_action_on(Some(SipEvent::CallStateChanged { call_id: 4, state: 6 })),
        CallAction::TearDown { call_id: 4 }
    ));
    assert!(matches!(
        last_action_on(Some(SipEvent::CallStateChanged { call_id: 4, state: 1 })),
        CallAction::Wait
    ));
    assert!(matches!(last_action_on(None), CallAction::Leave));
}
