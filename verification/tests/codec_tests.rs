use bytes::BytesMut;
use riirc::codec::{CrLfDelimitedCodec, ServerMessageCodec};
use riirc::proto::Command;
use riirc::DecodeError;

#[test]
fn framer_retains_input_without_line_feed() {
    let mut codec = CrLfDelimitedCodec::new();
    let mut buf = BytesMut::from(&b"partial input with no terminator"[..]);
    let before = buf.clone();
    assert!(codec.decode(&mut buf).is_none());
    assert_eq!(buf, before);
}

#[test]
fn framer_waits_until_line_feed_ends_the_buffer() {
    // the whole accumulated buffer is one frame: a line feed in the middle
    // does not yet produce anything
    let mut codec = CrLfDelimitedCodec::new();
    let mut buf = BytesMut::from(&b"first\nsecond"[..]);
    let before = buf.clone();
    assert!(codec.decode(&mut buf).is_none());
    assert_eq!(buf, before);
}

#[test]
fn framer_retains_empty_buffer() {
    let mut codec = CrLfDelimitedCodec::new();
    let mut buf = BytesMut::new();
    assert!(codec.decode(&mut buf).is_none());
    assert!(buf.is_empty());
}

#[test]
fn framer_normalizes_lone_line_feed() {
    let mut codec = CrLfDelimitedCodec::new();
    let mut buf = BytesMut::from(&b"JOIN #chan\n"[..]);
    let frame = codec.decode(&mut buf).unwrap();
    assert_eq!(&frame[..], b"JOIN #chan\r\n");
    assert!(buf.is_empty());
}

#[test]
fn framer_keeps_existing_crlf() {
    let mut codec = CrLfDelimitedCodec::new();
    let mut buf = BytesMut::from(&b"JOIN #chan\r\n"[..]);
    let frame = codec.decode(&mut buf).unwrap();
    assert_eq!(&frame[..], b"JOIN #chan\r\n");
    assert!(buf.is_empty());
}

#[test]
fn message_codec_waits_for_full_line() {
    let mut codec = ServerMessageCodec::new();
    let mut buf = BytesMut::from(&b"PRIVMSG #chan :partia"[..]);
    assert!(matches!(codec.decode(&mut buf), Ok(None)));
    assert_eq!(&buf[..], b"PRIVMSG #chan :partia");
}

#[test]
fn message_codec_consumes_one_frame_and_keeps_the_rest() {
    let mut codec = ServerMessageCodec::new();
    let mut buf = BytesMut::from(&b"PING :a\r\nPRIVMSG #c"[..]);
    let m = codec.decode(&mut buf).unwrap().unwrap();
    match &m.command {
        Command::Verb(v) => assert_eq!(v, "PING"),
        _ => panic!("expected a verb"),
    }
    assert_eq!(m.params, vec!["a".to_string()]);
    assert_eq!(&buf[..], b"PRIVMSG #c");
}

#[test]
fn message_codec_drops_bad_frame_and_goes_on() {
    let mut codec = ServerMessageCodec::new();
    let mut buf = BytesMut::from(&b"@broken\r\nPING :ok\r\n"[..]);
    assert!(matches!(
        codec.decode(&mut buf),
        Err(DecodeError::MalformedTags)
    ));
    let m = codec.decode(&mut buf).unwrap().unwrap();
    assert_eq!(m.params, vec!["ok".to_string()]);
    assert!(buf.is_empty());
}

#[test]
fn message_codec_encode_writes_wire_bytes() {
    let mut codec = ServerMessageCodec::new();
    let mut buf = BytesMut::from(&b"stale"[..]);
    let mut src = BytesMut::from(&b":irc.example 001 bob :Welcome\r\n"[..]);
    let m = codec.decode(&mut src).unwrap().unwrap();
    codec.encode(m, &mut buf);
    assert_eq!(&buf[..], b":irc.example 001 bob :Welcome\r\n");
}
