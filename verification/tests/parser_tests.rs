use riirc::proto::{Command, Message};
use riirc::reply::{InfoReply, Reply};
use riirc::DecodeError;

fn parse_str(line: &str) -> Result<Message, DecodeError> {
    Message::parse_bytes(line.as_bytes().to_vec())
}

#[test]
fn user_command_parses() {
    let m = parse_str("USER bob 0 * :Bob Smith").unwrap();
    match &m.command {
        Command::Verb(v) => assert_eq!(v, "USER"),
        _ => panic!("expected a verb"),
    }
    assert_eq!(
        m.params,
        vec![
            "bob".to_string(),
            "0".to_string(),
            "*".to_string(),
            "Bob Smith".to_string()
        ]
    );
    assert!(m.prefix.is_none());
    assert!(m.tags.is_empty());
}

#[test]
fn tag_section_parses() {
    let m = parse_str("@id=123;flag PRIVMSG #chan :hi").unwrap();
    assert_eq!(m.tags.len(), 2);
    let id = m.tags.iter().find(|t| t.0 == "id").unwrap();
    assert_eq!(id.1, "123");
    let flag = m.tags.iter().find(|t| t.0 == "flag").unwrap();
    assert_eq!(flag.1, "true");
    match &m.command {
        Command::Verb(v) => assert_eq!(v, "PRIVMSG"),
        _ => panic!("expected a verb"),
    }
}

#[test]
fn prefix_parses() {
    let m = parse_str(":nick!user@host PRIVMSG #chan :hello world").unwrap();
    assert_eq!(m.prefix.as_deref(), Some("nick!user@host"));
    assert_eq!(m.params, vec!["#chan".to_string(), "hello world".to_string()]);
}

#[test]
fn duplicate_tag_key_overwrites() {
    let m = parse_str("@a=1;a=2 PING :x").unwrap();
    assert_eq!(m.tags.len(), 1);
    assert_eq!(m.tags[0].0, "a");
    assert_eq!(m.tags[0].1, "2");
}

#[test]
fn tag_value_keeps_later_equals_signs() {
    let m = parse_str("@k=a=b PING :x").unwrap();
    assert_eq!(m.tags[0].1, "a=b");
}

#[test]
fn empty_trailing_always_appended() {
    let m = parse_str("PING").unwrap();
    assert_eq!(m.params, vec![String::new()]);
}

#[test]
fn trailing_without_middles() {
    let m = parse_str("PING :tag123").unwrap();
    assert_eq!(m.params, vec!["tag123".to_string()]);
}

#[test]
fn repeated_spaces_between_middles_dropped() {
    let m = parse_str("LIST  #a   #b :t").unwrap();
    assert_eq!(
        m.params,
        vec!["#a".to_string(), "#b".to_string(), "t".to_string()]
    );
}

#[test]
fn multibyte_text_survives_decoding() {
    let m = parse_str("PRIVMSG #chan :héllo wörld").unwrap();
    assert_eq!(m.params[1], "héllo wörld");
}

#[test]
fn welcome_numeric_classifies() {
    let m = parse_str("001 nick :Welcome to the network").unwrap();
    match &m.command {
        Command::Reply(Reply::Info(InfoReply::Welcome)) => {}
        _ => panic!("expected the welcome reply"),
    }
}

#[test]
fn unknown_numeric_fails_classification() {
    assert!(matches!(
        parse_str("999 nick :x"),
        Err(DecodeError::UnknownReplyCode(999))
    ));
}

#[test]
fn four_digit_token_is_a_verb() {
    let m = parse_str("0001 x :y").unwrap();
    match &m.command {
        Command::Verb(v) => assert_eq!(v, "0001"),
        _ => panic!("expected a verb: numeric commands are exactly three digits"),
    }
}

#[test]
fn malformed_tags_error() {
    assert!(matches!(parse_str("@id=1"), Err(DecodeError::MalformedTags)));
}

#[test]
fn malformed_prefix_error() {
    assert!(matches!(
        parse_str(":onlyprefix"),
        Err(DecodeError::MalformedPrefix)
    ));
}

#[test]
fn invalid_utf8_error() {
    assert!(matches!(
        Message::parse_bytes(vec![0xff, 0xfe, 0x0a]),
        Err(DecodeError::InvalidUtf8)
    ));
}
