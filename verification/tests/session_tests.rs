use riirc::proto::{Command, Message, User};
use riirc::session::{
    keepalive_step, registration_lines, registration_messages, session_step, KeepaliveAction,
    SessionAction, SessionEvent, SessionState,
};

fn parse_str(line: &str) -> Message {
    Message::parse_bytes(line.as_bytes().to_vec()).unwrap()
}

#[test]
fn probe_gets_exactly_one_acknowledgement() {
    let probe = parse_str("PING :tag123");
    match keepalive_step(probe) {
        KeepaliveAction::Respond(ack) => {
            match &ack.command {
                Command::Verb(v) => assert_eq!(v, "PONG"),
                _ => panic!("expected a verb"),
            }
            assert_eq!(ack.params, vec!["tag123".to_string()]);
            assert!(ack.tags.is_empty());
            assert!(ack.prefix.is_none());
        }
        KeepaliveAction::Forward(_) => panic!("the probe must not reach the consumer"),
    }
}

#[test]
fn non_probe_passes_through_unchanged() {
    let m = parse_str(":a!b@c PRIVMSG #chan :hi");
    match keepalive_step(m) {
        KeepaliveAction::Forward(f) => {
            assert_eq!(f.prefix.as_deref(), Some("a!b@c"));
            assert_eq!(f.params, vec!["#chan".to_string(), "hi".to_string()]);
        }
        KeepaliveAction::Respond(_) => panic!("only probes are answered"),
    }
}

#[test]
fn numeric_reply_is_not_a_probe() {
    let m = parse_str("001 bob :hi");
    assert!(matches!(keepalive_step(m), KeepaliveAction::Forward(_)));
}

#[test]
fn registration_sequence_is_fixed() {
    let user = User::new("bob".to_string(), None, None);
    let msgs = registration_messages(&user);
    assert_eq!(msgs.len(), 4);
    let verbs: Vec<String> = msgs
        .iter()
        .map(|m| match &m.command {
            Command::Verb(v) => v.clone(),
            _ => panic!("registration uses verbs"),
        })
        .collect();
    assert_eq!(verbs, vec!["CAP", "NICK", "USER", "CAP"]);
    assert_eq!(msgs[0].params, vec!["LS".to_string(), "302".to_string()]);
    assert_eq!(msgs[1].params, vec!["bob".to_string()]);
    assert_eq!(
        msgs[2].params,
        vec![
            "bob".to_string(),
            "0".to_string(),
            "*".to_string(),
            "Anonymous".to_string()
        ]
    );
    assert_eq!(msgs[3].params, vec!["END".to_string()]);
}

#[test]
fn registration_defaults_fill_in() {
    let user = User::new(
        "bob".to_string(),
        Some("robert".to_string()),
        Some("Bob Smith".to_string()),
    );
    let msgs = registration_messages(&user);
    assert_eq!(
        msgs[2].params,
        vec![
            "robert".to_string(),
            "0".to_string(),
            "*".to_string(),
            "Bob Smith".to_string()
        ]
    );
}

#[test]
fn registration_lines_are_verbatim() {
    let user = User::new("bob".to_string(), None, Some("Bob Smith".to_string()));
    let lines = registration_lines(&user);
    assert_eq!(
        lines,
        vec![
            "CAP LS 302\r\n".to_string(),
            "NICK bob\r\n".to_string(),
            "USER bob 0 * :Bob Smith\r\n".to_string(),
            "CAP END\r\n".to_string(),
        ]
    );
}

#[test]
fn session_advances_through_its_states() {
    let (s1, a1) = session_step(SessionState::Connecting, SessionEvent::Connected);
    assert_eq!(s1, SessionState::Registering);
    assert_eq!(a1, SessionAction::SendRegistration);
    let (s2, a2) = session_step(s1, SessionEvent::RegistrationSent);
    assert_eq!(s2, SessionState::Streaming);
    assert_eq!(a2, SessionAction::Pump);
    let (s3, a3) = session_step(s2, SessionEvent::StreamEnded);
    assert_eq!(s3, SessionState::Closed);
    assert_eq!(a3, SessionAction::Stop);
}

#[test]
fn failures_are_fatal() {
    let (s, a) = session_step(SessionState::Connecting, SessionEvent::ConnectFailed);
    assert_eq!(s, SessionState::Closed);
    assert_eq!(a, SessionAction::Stop);
    let (s, a) = session_step(SessionState::Registering, SessionEvent::RegistrationFailed);
    assert_eq!(s, SessionState::Closed);
    assert_eq!(a, SessionAction::Stop);
    let (s, a) = session_step(SessionState::Closed, SessionEvent::Connected);
    assert_eq!(s, SessionState::Closed);
    assert_eq!(a, SessionAction::Stop);
}
