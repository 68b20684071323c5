use session_relay::handshake::{Handshake, HandshakeError, HandshakeStep, MAX_USER_ATTEMPTS};

#[test]
fn greeting_without_map_selected() {
    let (hs, frames) = Handshake::begin("");
    assert_eq!(frames.len(), 3);
    assert_eq!(frames[0], format!("HOLA{}", hs.id));
    assert_eq!(frames[1], "MAPS");
    assert_eq!(frames[2], "VCHK0.0.3");
}

#[test]
fn greeting_with_map_selected() {
    let (_, frames) = Handshake::begin("gridmap");
    assert_eq!(frames[1], "MAPCgridmap");
}

#[test]
fn generated_ids_look_fresh() {
    let (a, _) = Handshake::begin("");
    let (b, _) = Handshake::begin("");
    assert!(!a.id.is_empty());
    assert_ne!(a.id, b.id);
}

#[test]
fn user_line_admits_a_player() {
    let (mut hs, _) = Handshake::begin("");
    let id = hs.id.clone();
    let step = hs.on_line("USER{\"nickname\":\"Alice\"}", "127.0.0.1", 30813);
    match step {
        HandshakeStep::Admit(p) => {
            assert_eq!(p.nickname, "Alice");
            assert_eq!(p.remote_address, "127.0.0.1");
            assert_eq!(p.remote_port, 30813);
            assert_eq!(p.id, id);
            assert_eq!(p.current_veh_id, "0");
        }
        _ => panic!("expected an admission"),
    }
}

#[test]
fn user_line_keeps_working_with_line_terminator() {
    let (mut hs, _) = Handshake::begin("");
    let step = hs.on_line("USER{\"nickname\":\"Bob\"}\r\n", "10.0.0.2", 4242);
    assert!(matches!(step, HandshakeStep::Admit(p) if p.nickname == "Bob"));
}

#[test]
fn user_line_without_parsable_nickname_is_malformed() {
    let (mut hs, _) = Handshake::begin("");
    let step = hs.on_line("USER{oops", "127.0.0.1", 30813);
    assert!(matches!(
        step,
        HandshakeStep::Fail(HandshakeError::MalformedIdentity)
    ));
}

#[test]
fn user_line_with_non_string_nickname_is_malformed() {
    let (mut hs, _) = Handshake::begin("");
    let step = hs.on_line("USER{\"nickname\":5}", "127.0.0.1", 30813);
    assert!(matches!(
        step,
        HandshakeStep::Fail(HandshakeError::MalformedIdentity)
    ));
}

#[test]
fn user_line_with_non_object_payload_is_malformed() {
    let (mut hs, _) = Handshake::begin("");
    let step = hs.on_line("USER[1,2,3]", "127.0.0.1", 30813);
    assert!(matches!(
        step,
        HandshakeStep::Fail(HandshakeError::MalformedIdentity)
    ));
}

#[test]
fn user_line_missing_nickname_field_is_malformed() {
    let (mut hs, _) = Handshake::begin("");
    let step = hs.on_line("USER{\"name\":\"Alice\"}", "127.0.0.1", 30813);
    assert!(matches!(
        step,
        HandshakeStep::Fail(HandshakeError::MalformedIdentity)
    ));
}

#[test]
fn other_lines_spend_attempts() {
    let (mut hs, _) = Handshake::begin("");
    let step = hs.on_line("PINGx", "127.0.0.1", 30813);
    assert!(matches!(step, HandshakeStep::Retry));
    assert_eq!(hs.attempts, 1);
}

#[test]
fn short_line_counts_as_an_attempt() {
    let (mut hs, _) = Handshake::begin("");
    assert!(matches!(hs.on_line("AB", "127.0.0.1", 30813), HandshakeStep::Retry));
    assert_eq!(hs.attempts, 1);
}

#[test]
fn attempt_budget_runs_out() {
    let (mut hs, _) = Handshake::begin("");
    for _ in 0..(MAX_USER_ATTEMPTS - 1) {
        assert!(matches!(
            hs.on_line("CHAThello", "127.0.0.1", 30813),
            HandshakeStep::Retry
        ));
    }
    let last = hs.on_line("CHAThello", "127.0.0.1", 30813);
    assert!(matches!(
        last,
        HandshakeStep::Fail(HandshakeError::NoUserFrame)
    ));
    assert_eq!(hs.attempts, MAX_USER_ATTEMPTS);
}

#[test]
fn late_user_line_still_admits() {
    let (mut hs, _) = Handshake::begin("");
    for _ in 0..(MAX_USER_ATTEMPTS - 1) {
        assert!(matches!(
            hs.on_line("junk line", "127.0.0.1", 30813),
            HandshakeStep::Retry
        ));
    }
    let step = hs.on_line("USER{\"nickname\":\"Last\"}", "127.0.0.1", 30813);
    assert!(matches!(step, HandshakeStep::Admit(p) if p.nickname == "Last"));
}
