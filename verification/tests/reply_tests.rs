use riirc::reply::{CommandReply, ErrorReply, InfoReply, Reply};
use riirc::DecodeError;

#[test]
fn code_one_is_welcome() {
    assert_eq!(
        Reply::from_code(1),
        Ok(Reply::Info(InfoReply::Welcome))
    );
}

#[test]
fn unclassifiable_code_is_a_typed_error() {
    assert_eq!(
        Reply::from_code(999),
        Err(DecodeError::UnknownReplyCode(999))
    );
    assert_eq!(Reply::from_code(0), Err(DecodeError::UnknownReplyCode(0)));
    assert_eq!(
        Reply::from_code(299),
        Err(DecodeError::UnknownReplyCode(299))
    );
}

#[test]
fn family_boundaries_classify() {
    assert_eq!(
        Reply::from_code(267),
        Ok(Reply::Info(InfoReply::WhoIsCertFP))
    );
    assert_eq!(
        Reply::from_code(300),
        Ok(Reply::Command(CommandReply::RplNone))
    );
    assert_eq!(
        Reply::from_code(382),
        Ok(Reply::Command(CommandReply::Rehashing))
    );
    assert_eq!(
        Reply::from_code(400),
        Ok(Reply::Error(ErrorReply::Unknown))
    );
    assert_eq!(
        Reply::from_code(907),
        Ok(Reply::Error(ErrorReply::SASLAlready))
    );
}

#[test]
fn codes_round_trip_through_classification() {
    let samples = vec![
        Reply::Info(InfoReply::Bounce),
        Reply::Info(InfoReply::TryAgain),
        Reply::Command(CommandReply::Topic),
        Reply::Command(CommandReply::EndOfMOTD),
        Reply::Error(ErrorReply::NickInUse),
        Reply::Error(ErrorReply::StartTLS),
    ];
    for r in samples {
        assert_eq!(Reply::from_code(r.code()), Ok(r));
    }
}

#[test]
fn known_codes_render() {
    assert_eq!(Reply::Info(InfoReply::Welcome).code(), 1);
    assert_eq!(Reply::Info(InfoReply::UModeIs).code(), 221);
    assert_eq!(Reply::Command(CommandReply::MOTD).code(), 372);
    assert_eq!(Reply::Error(ErrorReply::NoPrivs).code(), 723);
    assert_eq!(Reply::Error(ErrorReply::SASLFail).code(), 904);
}
