use bytes::BytesMut;
use riirc::codec::ServerMessageCodec;
use riirc::proto::{Command, Message};
use riirc::reply::{ErrorReply, InfoReply, Reply};

fn parse_str(line: &str) -> Message {
    Message::parse_bytes(line.as_bytes().to_vec()).unwrap()
}

#[test]
fn parse_then_encode_is_byte_identical() {
    let wire = b":nick!user@host PRIVMSG #chan :hello world\r\n";
    let mut codec = ServerMessageCodec::new();
    let mut buf = BytesMut::from(&wire[..]);
    let m = codec.decode(&mut buf).unwrap().unwrap();
    assert_eq!(m.encode(), wire.to_vec());
}

#[test]
fn parse_then_encode_with_tags_is_byte_identical() {
    let wire = b"@id=123;flag=true :srv 001 bob :Welcome\r\n";
    let mut codec = ServerMessageCodec::new();
    let mut buf = BytesMut::from(&wire[..]);
    let m = codec.decode(&mut buf).unwrap().unwrap();
    assert_eq!(m.encode(), wire.to_vec());
}

#[test]
fn encoding_twice_is_identical() {
    let m = parse_str(":a!b@c NOTICE #chan :no hidden state");
    assert_eq!(m.encode(), m.encode());
}

#[test]
fn numeric_reply_encodes_as_its_decimal_code() {
    let m = Message {
        tags: Vec::new(),
        prefix: Some("irc.example".to_string()),
        command: Command::Reply(Reply::Info(InfoReply::Welcome)),
        params: vec!["bob".to_string(), "Welcome to the network".to_string()],
    };
    assert_eq!(
        m.encode(),
        b":irc.example 001 bob :Welcome to the network\r\n".to_vec()
    );
}

#[test]
fn high_numeric_reply_encodes_three_digits() {
    let m = Message {
        tags: Vec::new(),
        prefix: None,
        command: Command::Reply(Reply::Error(ErrorReply::SASLFail)),
        params: vec!["authentication failed".to_string()],
    };
    assert_eq!(m.encode(), b"904  :authentication failed\r\n".to_vec());
}

#[test]
fn tags_encode_with_marker_and_space() {
    let m = Message {
        tags: vec![("id".to_string(), "123".to_string())],
        prefix: None,
        command: Command::Verb("PRIVMSG".to_string()),
        params: vec!["#chan".to_string(), "hi".to_string()],
    };
    assert_eq!(m.encode(), b"@id=123 PRIVMSG #chan :hi\r\n".to_vec());
}

#[test]
fn trailing_is_always_marked() {
    let m = Message {
        tags: Vec::new(),
        prefix: None,
        command: Command::Verb("PONG".to_string()),
        params: vec!["tag123".to_string()],
    };
    assert_eq!(m.encode(), b"PONG  :tag123\r\n".to_vec());
}

#[test]
fn multibyte_text_encodes_back_to_utf8() {
    let m = parse_str("PRIVMSG #chan :héllo");
    assert_eq!(m.encode(), "PRIVMSG #chan :héllo\r\n".as_bytes().to_vec());
}
