//! The three numeric-reply families and their classification.
//!
//! A three-digit command on the wire belongs to exactly one of three
//! enumerated families: bootstrap information, responses to client
//! commands, and errors. Classification tries the families in that fixed
//! order; a code in none of them is a typed, recoverable failure.

use crate::DecodeError;
use vstd::prelude::*;

verus! {

/// Server and session bootstrap numerics.
#[derive(Clone, Copy, Debug, PartialEq, Eq, Structural)]
pub enum InfoReply {
    Welcome,
    YourHost,
    Created,
    MyInfo,
    ISupport,
    Bounce,
    UModeIs,
    StatsDLine,
    LUserClient,
    LUserOp,
    LUserUnknown,
    LUserChannels,
    LUserMe,
    LAdminMe,
    AdminLoc1,
    AdminLoc2,
    AdminEmail,
    TryAgain,
    LocalUsers,
    GlobalUsers,
    WhoIsCertFP,
}

/// The three-digit wire code of an `InfoReply`.
pub open spec fn info_code(r: InfoReply) -> u16 {
    match r {
        InfoReply::Welcome => 1,
        InfoReply::YourHost => 2,
        InfoReply::Created => 3,
        InfoReply::MyInfo => 4,
        InfoReply::ISupport => 5,
        InfoReply::Bounce => 10,
        InfoReply::UModeIs => 221,
        InfoReply::StatsDLine => 250,
        InfoReply::LUserClient => 251,
        InfoReply::LUserOp => 252,
        InfoReply::LUserUnknown => 253,
        InfoReply::LUserChannels => 254,
        InfoReply::LUserMe => 255,
        InfoReply::LAdminMe => 256,
        InfoReply::AdminLoc1 => 257,
        InfoReply::AdminLoc2 => 258,
        InfoReply::AdminEmail => 259,
        InfoReply::TryAgain => 263,
        InfoReply::LocalUsers => 265,
        InfoReply::GlobalUsers => 266,
        InfoReply::WhoIsCertFP => 267,
    }
}

/// The `InfoReply` carrying a given wire code, if the code is in the family.
pub open spec fn info_from_code(n: u16) -> Option<InfoReply> {
    if n == 1 {
        Some(InfoReply::Welcome)
    } else if n == 2 {
        Some(InfoReply::YourHost)
    } else if n == 3 {
        Some(InfoReply::Created)
    } else if n == 4 {
        Some(InfoReply::MyInfo)
    } else if n == 5 {
        Some(InfoReply::ISupport)
    } else if n == 10 {
        Some(InfoReply::Bounce)
    } else if n == 221 {
        Some(InfoReply::UModeIs)
    } else if n == 250 {
        Some(InfoReply::StatsDLine)
    } else if n == 251 {
        Some(InfoReply::LUserClient)
    } else if n == 252 {
        Some(InfoReply::LUserOp)
    } else if n == 253 {
        Some(InfoReply::LUserUnknown)
    } else if n == 254 {
        Some(InfoReply::LUserChannels)
    } else if n == 255 {
        Some(InfoReply::LUserMe)
    } else if n == 256 {
        Some(InfoReply::LAdminMe)
    } else if n == 257 {
        Some(InfoReply::AdminLoc1)
    } else if n == 258 {
        Some(InfoReply::AdminLoc2)
    } else if n == 259 {
        Some(InfoReply::AdminEmail)
    } else if n == 263 {
        Some(InfoReply::TryAgain)
    } else if n == 265 {
        Some(InfoReply::LocalUsers)
    } else if n == 266 {
        Some(InfoReply::GlobalUsers)
    } else if n == 267 {
        Some(InfoReply::WhoIsCertFP)
    } else {
        None
    }
}

pub fn info_of_code(n: u16) -> (r: Option<InfoReply>)
    ensures
        r == info_from_code(n),
{
    match n {
        1 => Some(InfoReply::Welcome),
        2 => Some(InfoReply::YourHost),
        3 => Some(InfoReply::Created),
        4 => Some(InfoReply::MyInfo),
        5 => Some(InfoReply::ISupport),
        10 => Some(InfoReply::Bounce),
        221 => Some(InfoReply::UModeIs),
        250 => Some(InfoReply::StatsDLine),
        251 => Some(InfoReply::LUserClient),
        252 => Some(InfoReply::LUserOp),
        253 => Some(InfoReply::LUserUnknown),
        254 => Some(InfoReply::LUserChannels),
        255 => Some(InfoReply::LUserMe),
        256 => Some(InfoReply::LAdminMe),
        257 => Some(InfoReply::AdminLoc1),
        258 => Some(InfoReply::AdminLoc2),
        259 => Some(InfoReply::AdminEmail),
        263 => Some(InfoReply::TryAgain),
        265 => Some(InfoReply::LocalUsers),
        266 => Some(InfoReply::GlobalUsers),
        267 => Some(InfoReply::WhoIsCertFP),
        _ => None,
    }
}

pub proof fn lemma_info_code_round_trip(r: InfoReply)
    ensures
        info_from_code(info_code(r)) == Some(r),
        1 <= info_code(r) <= 267,
{
    match r {
        InfoReply::Welcome => assert(info_from_code(1) == Some(InfoReply::Welcome)),
        InfoReply::YourHost => assert(info_from_code(2) == Some(InfoReply::YourHost)),
        InfoReply::Created => assert(info_from_code(3) == Some(InfoReply::Created)),
        InfoReply::MyInfo => assert(info_from_code(4) == Some(InfoReply::MyInfo)),
        InfoReply::ISupport => assert(info_from_code(5) == Some(InfoReply::ISupport)),
        InfoReply::Bounce => assert(info_from_code(10) == Some(InfoReply::Bounce)),
        InfoReply::UModeIs => assert(info_from_code(221) == Some(InfoReply::UModeIs)),
        InfoReply::StatsDLine => assert(info_from_code(250) == Some(InfoReply::StatsDLine)),
        InfoReply::LUserClient => assert(info_from_code(251) == Some(InfoReply::LUserClient)),
        InfoReply::LUserOp => assert(info_from_code(252) == Some(InfoReply::LUserOp)),
        InfoReply::LUserUnknown => assert(info_from_code(253) == Some(InfoReply::LUserUnknown)),
        InfoReply::LUserChannels => assert(info_from_code(254) == Some(InfoReply::LUserChannels)),
        InfoReply::LUserMe => assert(info_from_code(255) == Some(InfoReply::LUserMe)),
        InfoReply::LAdminMe => assert(info_from_code(256) == Some(InfoReply::LAdminMe)),
        InfoReply::AdminLoc1 => assert(info_from_code(257) == Some(InfoReply::AdminLoc1)),
        InfoReply::AdminLoc2 => assert(info_from_code(258) == Some(InfoReply::AdminLoc2)),
        InfoReply::AdminEmail => assert(info_from_code(259) == Some(InfoReply::AdminEmail)),
        InfoReply::TryAgain => assert(info_from_code(263) == Some(InfoReply::TryAgain)),
        InfoReply::LocalUsers => assert(info_from_code(265) == Some(InfoReply::LocalUsers)),
        InfoReply::GlobalUsers => assert(info_from_code(266) == Some(InfoReply::GlobalUsers)),
        InfoReply::WhoIsCertFP => assert(info_from_code(267) == Some(InfoReply::WhoIsCertFP)),
    }
}
/// Numeric responses to explicit client queries.
#[derive(Clone, Copy, Debug, PartialEq, Eq, Structural)]
pub enum CommandReply {
    RplNone,
    Away,
    UserHost,
    IsOn,
    UnAway,
    NowAway,
    WhoIsUser,
    WhoIsServer,
    WhoIsOperator,
    WhoWasUser,
    WhoIsIdle,
    EndOfWhoIs,
    WhoIsChannels,
    ListStart,
    List,
    ListEnd,
    ChannelModeIs,
    ChannelUrl,
    CreationTime,
    NoTopic,
    Topic,
    TopicWhoTime,
    Inviting,
    InviteList,
    EndOfInviteList,
    ExceptList,
    EndOfExceptList,
    Version,
    NameReply,
    EndOfNames,
    BanList,
    EndOfBanList,
    EndOfWhoWas,
    MOTD,
    MOTDStart,
    EndOfMOTD,
    YoureOperator,
    Rehashing,
}

/// The three-digit wire code of an `CommandReply`.
pub open spec fn command_code(r: CommandReply) -> u16 {
    match r {
        CommandReply::RplNone => 300,
        CommandReply::Away => 301,
        CommandReply::UserHost => 302,
        CommandReply::IsOn => 303,
        CommandReply::UnAway => 304,
        CommandReply::NowAway => 305,
        CommandReply::WhoIsUser => 311,
        CommandReply::WhoIsServer => 312,
        CommandReply::WhoIsOperator => 313,
        CommandReply::WhoWasUser => 314,
        CommandReply::WhoIsIdle => 317,
        CommandReply::EndOfWhoIs => 318,
        CommandReply::WhoIsChannels => 319,
        CommandReply::ListStart => 321,
        CommandReply::List => 322,
        CommandReply::ListEnd => 323,
        CommandReply::ChannelModeIs => 324,
        CommandReply::ChannelUrl => 328,
        CommandReply::CreationTime => 329,
        CommandReply::NoTopic => 331,
        CommandReply::Topic => 332,
        CommandReply::TopicWhoTime => 333,
        CommandReply::Inviting => 341,
        CommandReply::InviteList => 346,
        CommandReply::EndOfInviteList => 347,
        CommandReply::ExceptList => 348,
        CommandReply::EndOfExceptList => 349,
        CommandReply::Version => 351,
        CommandReply::NameReply => 353,
        CommandReply::EndOfNames => 366,
        CommandReply::BanList => 367,
        CommandReply::EndOfBanList => 368,
        CommandReply::EndOfWhoWas => 369,
        CommandReply::MOTD => 372,
        CommandReply::MOTDStart => 375,
        CommandReply::EndOfMOTD => 376,
        CommandReply::YoureOperator => 381,
        CommandReply::Rehashing => 382,
    }
}

/// The `CommandReply` carrying a given wire code, if the code is in the family.
pub open spec fn command_from_code(n: u16) -> Option<CommandReply> {
    if n == 300 {
        Some(CommandReply::RplNone)
    } else if n == 301 {
        Some(CommandReply::Away)
    } else if n == 302 {
        Some(CommandReply::UserHost)
    } else if n == 303 {
        Some(CommandReply::IsOn)
    } else if n == 304 {
        Some(CommandReply::UnAway)
    } else if n == 305 {
        Some(CommandReply::NowAway)
    } else if n == 311 {
        Some(CommandReply::WhoIsUser)
    } else if n == 312 {
        Some(CommandReply::WhoIsServer)
    } else if n == 313 {
        Some(CommandReply::WhoIsOperator)
    } else if n == 314 {
        Some(CommandReply::WhoWasUser)
    } else if n == 317 {
        Some(CommandReply::WhoIsIdle)
    } else if n == 318 {
        Some(CommandReply::EndOfWhoIs)
    } else if n == 319 {
        Some(CommandReply::WhoIsChannels)
    } else if n == 321 {
        Some(CommandReply::ListStart)
    } else if n == 322 {
        Some(CommandReply::List)
    } else if n == 323 {
        Some(CommandReply::ListEnd)
    } else if n == 324 {
        Some(CommandReply::ChannelModeIs)
    } else if n == 328 {
        Some(CommandReply::ChannelUrl)
    } else if n == 329 {
        Some(CommandReply::CreationTime)
    } else if n == 331 {
        Some(CommandReply::NoTopic)
    } else if n == 332 {
        Some(CommandReply::Topic)
    } else if n == 333 {
        Some(CommandReply::TopicWhoTime)
    } else if n == 341 {
        Some(CommandReply::Inviting)
    } else if n == 346 {
        Some(CommandReply::InviteList)
    } else if n == 347 {
        Some(CommandReply::EndOfInviteList)
    } else if n == 348 {
        Some(CommandReply::ExceptList)
    } else if n == 349 {
        Some(CommandReply::EndOfExceptList)
    } else if n == 351 {
        Some(CommandReply::Version)
    } else if n == 353 {
        Some(CommandReply::NameReply)
    } else if n == 366 {
        Some(CommandReply::EndOfNames)
    } else if n == 367 {
        Some(CommandReply::BanList)
    } else if n == 368 {
        Some(CommandReply::EndOfBanList)
    } else if n == 369 {
        Some(CommandReply::EndOfWhoWas)
    } else if n == 372 {
        Some(CommandReply::MOTD)
    } else if n == 375 {
        Some(CommandReply::MOTDStart)
    } else if n == 376 {
        Some(CommandReply::EndOfMOTD)
    } else if n == 381 {
        Some(CommandReply::YoureOperator)
    } else if n == 382 {
        Some(CommandReply::Rehashing)
    } else {
        None
    }
}

pub fn command_of_code(n: u16) -> (r: Option<CommandReply>)
    ensures
        r == command_from_code(n),
{
    match n {
        300 => Some(CommandReply::RplNone),
        301 => Some(CommandReply::Away),
        302 => Some(CommandReply::UserHost),
        303 => Some(CommandReply::IsOn),
        304 => Some(CommandReply::UnAway),
        305 => Some(CommandReply::NowAway),
        311 => Some(CommandReply::WhoIsUser),
        312 => Some(CommandReply::WhoIsServer),
        313 => Some(CommandReply::WhoIsOperator),
        314 => Some(CommandReply::WhoWasUser),
        317 => Some(CommandReply::WhoIsIdle),
        318 => Some(CommandReply::EndOfWhoIs),
        319 => Some(CommandReply::WhoIsChannels),
        321 => Some(CommandReply::ListStart),
        322 => Some(CommandReply::List),
        323 => Some(CommandReply::ListEnd),
        324 => Some(CommandReply::ChannelModeIs),
        328 => Some(CommandReply::ChannelUrl),
        329 => Some(CommandReply::CreationTime),
        331 => Some(CommandReply::NoTopic),
        332 => Some(CommandReply::Topic),
        333 => Some(CommandReply::TopicWhoTime),
        341 => Some(CommandReply::Inviting),
        346 => Some(CommandReply::InviteList),
        347 => Some(CommandReply::EndOfInviteList),
        348 => Some(CommandReply::ExceptList),
        349 => Some(CommandReply::EndOfExceptList),
        351 => Some(CommandReply::Version),
        353 => Some(CommandReply::NameReply),
        366 => Some(CommandReply::EndOfNames),
        367 => Some(CommandReply::BanList),
        368 => Some(CommandReply::EndOfBanList),
        369 => Some(CommandReply::EndOfWhoWas),
        372 => Some(CommandReply::MOTD),
        375 => Some(CommandReply::MOTDStart),
        376 => Some(CommandReply::EndOfMOTD),
        381 => Some(CommandReply::YoureOperator),
        382 => Some(CommandReply::Rehashing),
        _ => None,
    }
}

pub proof fn lemma_command_code_round_trip(r: CommandReply)
    ensures
        command_from_code(command_code(r)) == Some(r),
        300 <= command_code(r) <= 382,
{
    match r {
        CommandReply::RplNone => assert(command_from_code(300) == Some(CommandReply::RplNone)),
        CommandReply::Away => assert(command_from_code(301) == Some(CommandReply::Away)),
        CommandReply::UserHost => assert(command_from_code(302) == Some(CommandReply::UserHost)),
        CommandReply::IsOn => assert(command_from_code(303) == Some(CommandReply::IsOn)),
        CommandReply::UnAway => assert(command_from_code(304) == Some(CommandReply::UnAway)),
        CommandReply::NowAway => assert(command_from_code(305) == Some(CommandReply::NowAway)),
        CommandReply::WhoIsUser => assert(command_from_code(311) == Some(CommandReply::WhoIsUser)),
        CommandReply::WhoIsServer => assert(command_from_code(312) == Some(CommandReply::WhoIsServer)),
        CommandReply::WhoIsOperator => assert(command_from_code(313) == Some(CommandReply::WhoIsOperator)),
        CommandReply::WhoWasUser => assert(command_from_code(314) == Some(CommandReply::WhoWasUser)),
        CommandReply::WhoIsIdle => assert(command_from_code(317) == Some(CommandReply::WhoIsIdle)),
        CommandReply::EndOfWhoIs => assert(command_from_code(318) == Some(CommandReply::EndOfWhoIs)),
        CommandReply::WhoIsChannels => assert(command_from_code(319) == Some(CommandReply::WhoIsChannels)),
        CommandReply::ListStart => assert(command_from_code(321) == Some(CommandReply::ListStart)),
        CommandReply::List => assert(command_from_code(322) == Some(CommandReply::List)),
        CommandReply::ListEnd => assert(command_from_code(323) == Some(CommandReply::ListEnd)),
        CommandReply::ChannelModeIs => assert(command_from_code(324) == Some(CommandReply::ChannelModeIs)),
        CommandReply::ChannelUrl => assert(command_from_code(328) == Some(CommandReply::ChannelUrl)),
        CommandReply::CreationTime => assert(command_from_code(329) == Some(CommandReply::CreationTime)),
        CommandReply::NoTopic => assert(command_from_code(331) == Some(CommandReply::NoTopic)),
        CommandReply::Topic => assert(command_from_code(332) == Some(CommandReply::Topic)),
        CommandReply::TopicWhoTime => assert(command_from_code(333) == Some(CommandReply::TopicWhoTime)),
        CommandReply::Inviting => assert(command_from_code(341) == Some(CommandReply::Inviting)),
        CommandReply::InviteList => assert(command_from_code(346) == Some(CommandReply::InviteList)),
        CommandReply::EndOfInviteList => assert(command_from_code(347) == Some(CommandReply::EndOfInviteList)),
        CommandReply::ExceptList => assert(command_from_code(348) == Some(CommandReply::ExceptList)),
        CommandReply::EndOfExceptList => assert(command_from_code(349) == Some(CommandReply::EndOfExceptList)),
        CommandReply::Version => assert(command_from_code(351) == Some(CommandReply::Version)),
        CommandReply::NameReply => assert(command_from_code(353) == Some(CommandReply::NameReply)),
        CommandReply::EndOfNames => assert(command_from_code(366) == Some(CommandReply::EndOfNames)),
        CommandReply::BanList => assert(command_from_code(367) == Some(CommandReply::BanList)),
        CommandReply::EndOfBanList => assert(command_from_code(368) == Some(CommandReply::EndOfBanList)),
        CommandReply::EndOfWhoWas => assert(command_from_code(369) == Some(CommandReply::EndOfWhoWas)),
        CommandReply::MOTD => assert(command_from_code(372) == Some(CommandReply::MOTD)),
        CommandReply::MOTDStart => assert(command_from_code(375) == Some(CommandReply::MOTDStart)),
        CommandReply::EndOfMOTD => assert(command_from_code(376) == Some(CommandReply::EndOfMOTD)),
        CommandReply::YoureOperator => assert(command_from_code(381) == Some(CommandReply::YoureOperator)),
        CommandReply::Rehashing => assert(command_from_code(382) == Some(CommandReply::Rehashing)),
    }
}
/// Numeric error codes, including IRCv3 SASL/TLS extension codes.
#[derive(Clone, Copy, Debug, PartialEq, Eq, Structural)]
pub enum ErrorReply {
    Unknown,
    NoSuchNick,
    NosuchServer,
    NoSuchChannel,
    CannotSendToChannel,
    TooManyChannels,
    UnknownCommand,
    NoMOTD,
    ErroneousNickname,
    NickInUse,
    UserNotInChannel,
    NotOnChannel,
    UserOnchannel,
    NotRegistered,
    NeedMoreParameters,
    AlreadRegistered,
    PasswordMismatch,
    YoureBannedCreep,
    ChannelIsFull,
    UnknownMode,
    InviteOnlyChannel,
    BannedFromChannel,
    BadChannelKey,
    NoPrivileges,
    ChanOpPrivsNeeded,
    CantKillServer,
    NoOperHost,
    UModeUnknownFlag,
    UsersDontMatch,
    StartTLS,
    NoPrivs,
    NickLocked,
    SASLFail,
    SASLTooLong,
    SASLAborted,
    SASLAlready,
}

/// The three-digit wire code of an `ErrorReply`.
pub open spec fn error_code(r: ErrorReply) -> u16 {
    match r {
        ErrorReply::Unknown => 400,
        ErrorReply::NoSuchNick => 401,
        ErrorReply::NosuchServer => 402,
        ErrorReply::NoSuchChannel => 403,
        ErrorReply::CannotSendToChannel => 404,
        ErrorReply::TooManyChannels => 405,
        ErrorReply::UnknownCommand => 421,
        ErrorReply::NoMOTD => 422,
        ErrorReply::ErroneousNickname => 432,
        ErrorReply::NickInUse => 433,
        ErrorReply::UserNotInChannel => 441,
        ErrorReply::NotOnChannel => 442,
        ErrorReply::UserOnchannel => 443,
        ErrorReply::NotRegistered => 451,
        ErrorReply::NeedMoreParameters => 461,
        ErrorReply::AlreadRegistered => 462,
        ErrorReply::PasswordMismatch => 464,
        ErrorReply::YoureBannedCreep => 465,
        ErrorReply::ChannelIsFull => 471,
        ErrorReply::UnknownMode => 472,
        ErrorReply::InviteOnlyChannel => 473,
        ErrorReply::BannedFromChannel => 474,
        ErrorReply::BadChannelKey => 475,
        ErrorReply::NoPrivileges => 481,
        ErrorReply::ChanOpPrivsNeeded => 482,
        ErrorReply::CantKillServer => 483,
        ErrorReply::NoOperHost => 491,
        ErrorReply::UModeUnknownFlag => 501,
        ErrorReply::UsersDontMatch => 502,
        ErrorReply::StartTLS => 691,
        ErrorReply::NoPrivs => 723,
        ErrorReply::NickLocked => 902,
        ErrorReply::SASLFail => 904,
        ErrorReply::SASLTooLong => 905,
        ErrorReply::SASLAborted => 906,
        ErrorReply::SASLAlready => 907,
    }
}

/// The `ErrorReply` carrying a given wire code, if the code is in the family.
pub open spec fn error_from_code(n: u16) -> Option<ErrorReply> {
    if n == 400 {
        Some(ErrorReply::Unknown)
    } else if n == 401 {
        Some(ErrorReply::NoSuchNick)
    } else if n == 402 {
        Some(ErrorReply::NosuchServer)
    } else if n == 403 {
        Some(ErrorReply::NoSuchChannel)
    } else if n == 404 {
        Some(ErrorReply::CannotSendToChannel)
    } else if n == 405 {
        Some(ErrorReply::TooManyChannels)
    } else if n == 421 {
        Some(ErrorReply::UnknownCommand)
    } else if n == 422 {
        Some(ErrorReply::NoMOTD)
    } else if n == 432 {
        Some(ErrorReply::ErroneousNickname)
    } else if n == 433 {
        Some(ErrorReply::NickInUse)
    } else if n == 441 {
        Some(ErrorReply::UserNotInChannel)
    } else if n == 442 {
        Some(ErrorReply::NotOnChannel)
    } else if n == 443 {
        Some(ErrorReply::UserOnchannel)
    } else if n == 451 {
        Some(ErrorReply::NotRegistered)
    } else if n == 461 {
        Some(ErrorReply::NeedMoreParameters)
    } else if n == 462 {
        Some(ErrorReply::AlreadRegistered)
    } else if n == 464 {
        Some(ErrorReply::PasswordMismatch)
    } else if n == 465 {
        Some(ErrorReply::YoureBannedCreep)
    } else if n == 471 {
        Some(ErrorReply::ChannelIsFull)
    } else if n == 472 {
        Some(ErrorReply::UnknownMode)
    } else if n == 473 {
        Some(ErrorReply::InviteOnlyChannel)
    } else if n == 474 {
        Some(ErrorReply::BannedFromChannel)
    } else if n == 475 {
        Some(ErrorReply::BadChannelKey)
    } else if n == 481 {
        Some(ErrorReply::NoPrivileges)
    } else if n == 482 {
        Some(ErrorReply::ChanOpPrivsNeeded)
    } else if n == 483 {
        Some(ErrorReply::CantKillServer)
    } else if n == 491 {
        Some(ErrorReply::NoOperHost)
    } else if n == 501 {
        Some(ErrorReply::UModeUnknownFlag)
    } else if n == 502 {
        Some(ErrorReply::UsersDontMatch)
    } else if n == 691 {
        Some(ErrorReply::StartTLS)
    } else if n == 723 {
        Some(ErrorReply::NoPrivs)
    } else if n == 902 {
        Some(ErrorReply::NickLocked)
    } else if n == 904 {
        Some(ErrorReply::SASLFail)
    } else if n == 905 {
        Some(ErrorReply::SASLTooLong)
    } else if n == 906 {
        Some(ErrorReply::SASLAborted)
    } else if n == 907 {
        Some(ErrorReply::SASLAlready)
    } else {
        None
    }
}

pub fn error_of_code(n: u16) -> (r: Option<ErrorReply>)
    ensures
        r == error_from_code(n),
{
    match n {
        400 => Some(ErrorReply::Unknown),
        401 => Some(ErrorReply::NoSuchNick),
        402 => Some(ErrorReply::NosuchServer),
        403 => Some(ErrorReply::NoSuchChannel),
        404 => Some(ErrorReply::CannotSendToChannel),
        405 => Some(ErrorReply::TooManyChannels),
        421 => Some(ErrorReply::UnknownCommand),
        422 => Some(ErrorReply::NoMOTD),
        432 => Some(ErrorReply::ErroneousNickname),
        433 => Some(ErrorReply::NickInUse),
        441 => Some(ErrorReply::UserNotInChannel),
        442 => Some(ErrorReply::NotOnChannel),
        443 => Some(ErrorReply::UserOnchannel),
        451 => Some(ErrorReply::NotRegistered),
        461 => Some(ErrorReply::NeedMoreParameters),
        462 => Some(ErrorReply::AlreadRegistered),
        464 => Some(ErrorReply::PasswordMismatch),
        465 => Some(ErrorReply::YoureBannedCreep),
        471 => Some(ErrorReply::ChannelIsFull),
        472 => Some(ErrorReply::UnknownMode),
        473 => Some(ErrorReply::InviteOnlyChannel),
        474 => Some(ErrorReply::BannedFromChannel),
        475 => Some(ErrorReply::BadChannelKey),
        481 => Some(ErrorReply::NoPrivileges),
        482 => Some(ErrorReply::ChanOpPrivsNeeded),
        483 => Some(ErrorReply::CantKillServer),
        491 => Some(ErrorReply::NoOperHost),
        501 => Some(ErrorReply::UModeUnknownFlag),
        502 => Some(ErrorReply::UsersDontMatch),
        691 => Some(ErrorReply::StartTLS),
        723 => Some(ErrorReply::NoPrivs),
        902 => Some(ErrorReply::NickLocked),
        904 => Some(ErrorReply::SASLFail),
        905 => Some(ErrorReply::SASLTooLong),
        906 => Some(ErrorReply::SASLAborted),
        907 => Some(ErrorReply::SASLAlready),
        _ => None,
    }
}

pub proof fn lemma_error_code_round_trip(r: ErrorReply)
    ensures
        error_from_code(error_code(r)) == Some(r),
        400 <= error_code(r) <= 907,
{
    match r {
        ErrorReply::Unknown => assert(error_from_code(400) == Some(ErrorReply::Unknown)),
        ErrorReply::NoSuchNick => assert(error_from_code(401) == Some(ErrorReply::NoSuchNick)),
        ErrorReply::NosuchServer => assert(error_from_code(402) == Some(ErrorReply::NosuchServer)),
        ErrorReply::NoSuchChannel => assert(error_from_code(403) == Some(ErrorReply::NoSuchChannel)),
        ErrorReply::CannotSendToChannel => assert(error_from_code(404) == Some(ErrorReply::CannotSendToChannel)),
        ErrorReply::TooManyChannels => assert(error_from_code(405) == Some(ErrorReply::TooManyChannels)),
        ErrorReply::UnknownCommand => assert(error_from_code(421) == Some(ErrorReply::UnknownCommand)),
        ErrorReply::NoMOTD => assert(error_from_code(422) == Some(ErrorReply::NoMOTD)),
        ErrorReply::ErroneousNickname => assert(error_from_code(432) == Some(ErrorReply::ErroneousNickname)),
        ErrorReply::NickInUse => assert(error_from_code(433) == Some(ErrorReply::NickInUse)),
        ErrorReply::UserNotInChannel => assert(error_from_code(441) == Some(ErrorReply::UserNotInChannel)),
        ErrorReply::NotOnChannel => assert(error_from_code(442) == Some(ErrorReply::NotOnChannel)),
        ErrorReply::UserOnchannel => assert(error_from_code(443) == Some(ErrorReply::UserOnchannel)),
        ErrorReply::NotRegistered => assert(error_from_code(451) == Some(ErrorReply::NotRegistered)),
        ErrorReply::NeedMoreParameters => assert(error_from_code(461) == Some(ErrorReply::NeedMoreParameters)),
        ErrorReply::AlreadRegistered => assert(error_from_code(462) == Some(ErrorReply::AlreadRegistered)),
        ErrorReply::PasswordMismatch => assert(error_from_code(464) == Some(ErrorReply::PasswordMismatch)),
        ErrorReply::YoureBannedCreep => assert(error_from_code(465) == Some(ErrorReply::YoureBannedCreep)),
        ErrorReply::ChannelIsFull => assert(error_from_code(471) == Some(ErrorReply::ChannelIsFull)),
        ErrorReply::UnknownMode => assert(error_from_code(472) == Some(ErrorReply::UnknownMode)),
        ErrorReply::InviteOnlyChannel => assert(error_from_code(473) == Some(ErrorReply::InviteOnlyChannel)),
        ErrorReply::BannedFromChannel => assert(error_from_code(474) == Some(ErrorReply::BannedFromChannel)),
        ErrorReply::BadChannelKey => assert(error_from_code(475) == Some(ErrorReply::BadChannelKey)),
        ErrorReply::NoPrivileges => assert(error_from_code(481) == Some(ErrorReply::NoPrivileges)),
        ErrorReply::ChanOpPrivsNeeded => assert(error_from_code(482) == Some(ErrorReply::ChanOpPrivsNeeded)),
        ErrorReply::CantKillServer => assert(error_from_code(483) == Some(ErrorReply::CantKillServer)),
        ErrorReply::NoOperHost => assert(error_from_code(491) == Some(ErrorReply::NoOperHost)),
        ErrorReply::UModeUnknownFlag => assert(error_from_code(501) == Some(ErrorReply::UModeUnknownFlag)),
        ErrorReply::UsersDontMatch => assert(error_from_code(502) == Some(ErrorReply::UsersDontMatch)),
        ErrorReply::StartTLS => assert(error_from_code(691) == Some(ErrorReply::StartTLS)),
        ErrorReply::NoPrivs => assert(error_from_code(723) == Some(ErrorReply::NoPrivs)),
        ErrorReply::NickLocked => assert(error_from_code(902) == Some(ErrorReply::NickLocked)),
        ErrorReply::SASLFail => assert(error_from_code(904) == Some(ErrorReply::SASLFail)),
        ErrorReply::SASLTooLong => assert(error_from_code(905) == Some(ErrorReply::SASLTooLong)),
        ErrorReply::SASLAborted => assert(error_from_code(906) == Some(ErrorReply::SASLAborted)),
        ErrorReply::SASLAlready => assert(error_from_code(907) == Some(ErrorReply::SASLAlready)),
    }
}
/// A classified numeric reply: exactly one of the three disjoint families.
#[derive(Clone, Copy, Debug, PartialEq, Eq, Structural)]
pub enum Reply {
    Info(InfoReply),
    Command(CommandReply),
    Error(ErrorReply),
}

impl Reply {
    /// The three-digit wire code this reply stands for.
    pub open spec fn spec_code(self) -> u16 {
        match self {
            Reply::Info(r) => info_code(r),
            Reply::Command(r) => command_code(r),
            Reply::Error(r) => error_code(r),
        }
    }

    /// Classification of a wire code, trying the families in the fixed
    /// order: information, then command responses, then errors.
    pub open spec fn spec_from_code(n: u16) -> Option<Reply> {
        match info_from_code(n) {
            Some(r) => Some(Reply::Info(r)),
            None => match command_from_code(n) {
                Some(r) => Some(Reply::Command(r)),
                None => match error_from_code(n) {
                    Some(r) => Some(Reply::Error(r)),
                    None => None,
                },
            },
        }
    }

    /// The decimal wire code of this reply.
    pub fn code(&self) -> (c: u16)
        ensures
            c == self.spec_code(),
    {
        match self {
            Reply::Info(r) => match r {
                InfoReply::Welcome => 1,
                InfoReply::YourHost => 2,
                InfoReply::Created => 3,
                InfoReply::MyInfo => 4,
                InfoReply::ISupport => 5,
                InfoReply::Bounce => 10,
                InfoReply::UModeIs => 221,
                InfoReply::StatsDLine => 250,
                InfoReply::LUserClient => 251,
                InfoReply::LUserOp => 252,
                InfoReply::LUserUnknown => 253,
                InfoReply::LUserChannels => 254,
                InfoReply::LUserMe => 255,
                InfoReply::LAdminMe => 256,
                InfoReply::AdminLoc1 => 257,
                InfoReply::AdminLoc2 => 258,
                InfoReply::AdminEmail => 259,
                InfoReply::TryAgain => 263,
                InfoReply::LocalUsers => 265,
                InfoReply::GlobalUsers => 266,
                InfoReply::WhoIsCertFP => 267,
            },
            Reply::Command(r) => match r {
                CommandReply::RplNone => 300,
                CommandReply::Away => 301,
                CommandReply::UserHost => 302,
                CommandReply::IsOn => 303,
                CommandReply::UnAway => 304,
                CommandReply::NowAway => 305,
                CommandReply::WhoIsUser => 311,
                CommandReply::WhoIsServer => 312,
                CommandReply::WhoIsOperator => 313,
                CommandReply::WhoWasUser => 314,
                CommandReply::WhoIsIdle => 317,
                CommandReply::EndOfWhoIs => 318,
                CommandReply::WhoIsChannels => 319,
                CommandReply::ListStart => 321,
                CommandReply::List => 322,
                CommandReply::ListEnd => 323,
                CommandReply::ChannelModeIs => 324,
                CommandReply::ChannelUrl => 328,
                CommandReply::CreationTime => 329,
                CommandReply::NoTopic => 331,
                CommandReply::Topic => 332,
                CommandReply::TopicWhoTime => 333,
                CommandReply::Inviting => 341,
                CommandReply::InviteList => 346,
                CommandReply::EndOfInviteList => 347,
                CommandReply::ExceptList => 348,
                CommandReply::EndOfExceptList => 349,
                CommandReply::Version => 351,
                CommandReply::NameReply => 353,
                CommandReply::EndOfNames => 366,
                CommandReply::BanList => 367,
                CommandReply::EndOfBanList => 368,
                CommandReply::EndOfWhoWas => 369,
                CommandReply::MOTD => 372,
                CommandReply::MOTDStart => 375,
                CommandReply::EndOfMOTD => 376,
                CommandReply::YoureOperator => 381,
                CommandReply::Rehashing => 382,
            },
            Reply::Error(r) => match r {
                ErrorReply::Unknown => 400,
                ErrorReply::NoSuchNick => 401,
                ErrorReply::NosuchServer => 402,
                ErrorReply::NoSuchChannel => 403,
                ErrorReply::CannotSendToChannel => 404,
                ErrorReply::TooManyChannels => 405,
                ErrorReply::UnknownCommand => 421,
                ErrorReply::NoMOTD => 422,
                ErrorReply::ErroneousNickname => 432,
                ErrorReply::NickInUse => 433,
                ErrorReply::UserNotInChannel => 441,
                ErrorReply::NotOnChannel => 442,
                ErrorReply::UserOnchannel => 443,
                ErrorReply::NotRegistered => 451,
                ErrorReply::NeedMoreParameters => 461,
                ErrorReply::AlreadRegistered => 462,
                ErrorReply::PasswordMismatch => 464,
                ErrorReply::YoureBannedCreep => 465,
                ErrorReply::ChannelIsFull => 471,
                ErrorReply::UnknownMode => 472,
                ErrorReply::InviteOnlyChannel => 473,
                ErrorReply::BannedFromChannel => 474,
                ErrorReply::BadChannelKey => 475,
                ErrorReply::NoPrivileges => 481,
                ErrorReply::ChanOpPrivsNeeded => 482,
                ErrorReply::CantKillServer => 483,
                ErrorReply::NoOperHost => 491,
                ErrorReply::UModeUnknownFlag => 501,
                ErrorReply::UsersDontMatch => 502,
                ErrorReply::StartTLS => 691,
                ErrorReply::NoPrivs => 723,
                ErrorReply::NickLocked => 902,
                ErrorReply::SASLFail => 904,
                ErrorReply::SASLTooLong => 905,
                ErrorReply::SASLAborted => 906,
                ErrorReply::SASLAlready => 907,
            },
        }
    }

    /// Classify a numeric code into its reply family.
    ///
    /// Returns the classified reply exactly when the code belongs to one of
    /// the three families, and otherwise the typed error naming the code.
    pub fn from_code(n: u16) -> (r: Result<Reply, DecodeError>)
        ensures
            match r {
                Ok(rep) => Reply::spec_from_code(n) == Some(rep),
                Err(e) => Reply::spec_from_code(n) is None && e == DecodeError::UnknownReplyCode(
                    n,
                ),
            },
    {
        if let Some(ir) = info_of_code(n) {
            Ok(Reply::Info(ir))
        } else if let Some(cr) = command_of_code(n) {
            Ok(Reply::Command(cr))
        } else if let Some(er) = error_of_code(n) {
            Ok(Reply::Error(er))
        } else {
            Err(DecodeError::UnknownReplyCode(n))
        }
    }
}

/// Codes at or past 300 are in no case information numerics.
pub proof fn lemma_info_range(n: u16)
    requires
        n >= 300,
    ensures
        info_from_code(n) is None,
{
}

/// Codes at or past 400 are in no case command-response numerics.
pub proof fn lemma_command_range(n: u16)
    requires
        n >= 400,
    ensures
        command_from_code(n) is None,
{
}

/// Classifying the code a reply renders to yields that same reply: the
/// families' code ranges are disjoint, and the fixed classification order
/// respects them.
pub proof fn lemma_reply_code_round_trip(r: Reply)
    ensures
        Reply::spec_from_code(r.spec_code()) == Some(r),
        r.spec_code() <= 999,
{
    match r {
        Reply::Info(ir) => {
            lemma_info_code_round_trip(ir);
        }
        Reply::Command(cr) => {
            lemma_command_code_round_trip(cr);
            lemma_info_range(command_code(cr));
        }
        Reply::Error(er) => {
            lemma_error_code_round_trip(er);
            lemma_info_range(error_code(er));
            lemma_command_range(error_code(er));
        }
    }
}

} // verus!
