//! Enumerated shapes of the client-facing command space and of numeric
//! reply payloads.
//!
//! These model which commands and reply payloads exist and what each
//! carries; the parsing pipeline classifies commands without constructing
//! them, so no logic here is exercised by the codecs.

use vstd::prelude::*;

verus! {

/// Marker for the four mode-argument classes; no wire form carries a value
/// of it yet.
pub enum ModeType {
    Unspecified,
}

/// A user mode letter and its argument, by argument class.
pub enum UserMode {
    A(ModeType, Option<String>),
    B(ModeType, String),
    C(ModeType, Option<String>),
    D(ModeType),
}

/// A channel mode letter and its argument, by argument class.
pub enum ChannelMode {
    A(ModeType, Option<String>),
    B(ModeType, String),
    C(ModeType, Option<String>),
    D(ModeType),
}

/// A mode change; the flag is `true` for `+` and `false` for `-`.
pub enum Mode {
    User(bool, UserMode),
    Channel(bool, ChannelMode),
}

/// The shapes of client-originated commands.
pub enum Command {
    /// `CAP subcommand [:capabilities]` - capability negotiation.
    Cap(String, Option<Vec<String>>),
    /// `AUTHENTICATE` - SASL authentication.
    Authenticate(()),
    /// `PASS password` - provide a password to the server.
    Pass(String),
    /// `NICK nickname` - set the nickname.
    Nick(String),
    /// `USER username 0 * [:real name]` - register username and real name.
    User(String, Option<String>),
    /// `OPER name password` - obtain operator privileges.
    Oper(String, String),
    /// `QUIT [reason]` - disconnect, optionally with a reason.
    Quit(Option<String>),
    /// `JOIN channel{,channel} [key{,key}]` - join channels.
    Join(Vec<String>, Vec<String>),
    /// `PART channel{,channel} [reason]` - leave channels.
    Part(Vec<String>, String),
    /// `TOPIC channel [topic]` - get or set a channel topic.
    Topic(String, Option<String>),
    /// `NAMES channel` - list the nicknames joined to a channel.
    Names(String),
    /// `LIST [channel{,channel}]` - list channels and their information.
    List(Vec<String>),
    /// `MOTD [target]` - display a server's message of the day.
    Motd(Option<String>),
    /// `VERSION [target]` - request a server's version.
    Version(Option<String>),
    /// `ADMIN [target]` - name a server's administrator.
    Admin(Option<String>),
    /// `CONNECT target [port [remote]]` - ask a server to connect to
    /// another.
    Connect(String, Option<(String, Option<String>)>),
    /// `TIME [server]` - query a server's local time.
    Time(Option<String>),
    /// `STATS query [server]` - query server statistics.
    Stats(String, Option<String>),
    /// `INFO [target]` - get information about a server.
    Info(Option<String>),
    /// `MODE target [modestring [modeargs...]]` - change modes on a target.
    Mode(String, Mode),
    /// `PRIVMSG target{,target} :text` - send a message.
    PrivMsg(Vec<String>, String),
    /// `NOTICE target{,target} :text` - send a notice; it must never be
    /// answered automatically.
    Notice(Vec<String>, String),
    /// `USERHOST nickname{ nickname}` - query up to five nicknames.
    UserHost(Vec<String>),
    /// `KILL nickname comment` - close another client's connection.
    Kill(String, String),
}

/// The payloads of numeric replies. Idle and sign-on times are carried as
/// whole seconds.
pub enum Numeric {
    Welcome(String, String),
    YourHost(String, String),
    Created(String, String),
    /// `client servername version usermodes channelmodes [paramchannelmodes]`
    MyInfo(String, String, String, String, String, Option<String>),
    /// `client token{ token} :message`
    ISupport(String, Vec<String>, String),
    /// `client hostname port :info`
    Bounce(String, String, String, String),
    /// `client usermodes`
    UModeIs(String, Vec<UserMode>),
    /// `client :info`
    StatsDLine(String, String),
    /// `client :info`
    LUserClient(String, String),
    /// `client numops :message`
    LUserOp(String, u32, String),
    /// `client numconns :message`
    LUserUnknown(String, u32, String),
    /// `client numchans :message`
    LUserChannels(String, u32, String),
    /// `client :info`
    LUserMe(String, String),
    /// `client [server] :admin info`
    LAdminMe(String, Option<String>, String),
    AdminLoc1(String, String),
    AdminLoc2(String, String),
    AdminEmail(String, String),
    /// `client command :message`
    TryAgain(String, String, String),
    /// `client [numclients maxclients] :message`
    LocalUsers(String, Option<(u32, u32)>, String),
    /// `client [numclients maxclients] :message`
    GlobalUsers(String, Option<(u32, u32)>, String),
    /// `client nickname :message`
    WhoIsCertFP(String, String, String),
    RplNone(()),
    /// `client nickname :message`
    Away(String, String, String),
    /// `client :[reply{ reply}]`
    UserHost(String, String),
    /// `client :[nickname{ nickname}]`
    IsOn(String, String),
    /// `client :message`
    UnAway(String, String),
    /// `client :message`
    NowAway(String, String),
    /// `client nickname username host * :real name`
    WhoIsUser(String, String, String, String, String),
    /// `client nickname server :server info`
    WhoIsServer(String, String, String, String),
    /// `client nickname :info`
    WhoIsOperator(String, String, String),
    /// `client nickname username host * :real name`
    WhoWasUser(String, String, String, String, String),
    /// `client nickname seconds [signon] :message`
    WhoIsIdle(String, String, u64, Option<u64>, String),
    /// `client nickname :message`
    EndOfWhoIs(String, String, String),
    /// `client nickname :[prefix]channel{ [prefix]channel}`
    WhoIsChannels(String, String, String),
}

} // verus!
