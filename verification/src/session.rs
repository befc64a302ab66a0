//! Session logic: the keepalive filter's decision, the fixed registration
//! handshake, and the orchestrator's state machine.
//!
//! The surrounding I/O loop performs the actions these functions decide;
//! every decision itself is verified here.

use crate::proto::{params_view, tags_view, Command, CommandView, Message, MessageView, User};
use vstd::prelude::*;
use vstd::string::StringExecFns;

verus! {

/// What the keepalive filter does with one inbound message.
pub enum KeepaliveAction {
    /// Not a probe: hand the message to the downstream consumer unchanged.
    Forward(Message),
    /// A liveness probe: swallow it, and enqueue this acknowledgement on
    /// the outbound path.
    Respond(Message),
}

/// Is `m` a server liveness probe (a `PING` command)?
pub open spec fn is_probe(m: MessageView) -> bool {
    m.command == CommandView::Verb("PING"@)
}

/// The acknowledgement answering a probe: a bare `PONG` carrying the same
/// parameters.
pub open spec fn probe_ack(m: MessageView) -> MessageView {
    MessageView {
        tags: Seq::empty(),
        prefix: None,
        command: CommandView::Verb("PONG"@),
        params: m.params,
    }
}

/// One step of the keepalive filter.
///
/// A liveness probe is swallowed and answered with exactly one
/// acknowledgement carrying the probe's parameters; every other message is
/// forwarded unchanged.
pub fn keepalive_step(m: Message) -> (r: KeepaliveAction)
    ensures
        is_probe(m@) ==> (r matches KeepaliveAction::Respond(a) && a@ == probe_ack(m@)),
        !is_probe(m@) ==> (r matches KeepaliveAction::Forward(f) && f == m),
{
    let probe = match &m.command {
        Command::Verb(s) => {
            let ping = String::from_str("PING");
            *s == ping
        }
        Command::Reply(_) => false,
    };
    if probe {
        let ack = Message {
            tags: Vec::new(),
            prefix: None,
            command: Command::Verb(String::from_str("PONG")),
            params: m.params,
        };
        proof {
            assert(tags_view(Seq::<(String, String)>::empty()) =~= Seq::<
                (Seq<char>, Seq<char>),
            >::empty());
        }
        KeepaliveAction::Respond(ack)
    } else {
        KeepaliveAction::Forward(m)
    }
}

/// A bare client message: no tags, no prefix, a verb and its parameters.
pub open spec fn simple_msg(cmd: Seq<char>, params: Seq<Seq<char>>) -> MessageView {
    MessageView { tags: Seq::empty(), prefix: None, command: CommandView::Verb(cmd), params }
}

/// The login name used for registration: the user's name, defaulting to
/// the nickname.
pub open spec fn spec_username(u: User) -> Seq<char> {
    match u.name {
        Some(n) => n@,
        None => u.nick@,
    }
}

/// The display name used for registration, defaulting to `"Anonymous"`.
pub open spec fn spec_realname(u: User) -> Seq<char> {
    match u.real_name {
        Some(n) => n@,
        None => "Anonymous"@,
    }
}

/// Build one bare client message from a verb and parameters.
fn make_msg(cmd: String, params: Vec<String>) -> (r: Message)
    ensures
        r@ == simple_msg(cmd@, params_view(params@)),
{
    let r = Message { tags: Vec::new(), prefix: None, command: Command::Verb(cmd), params };
    proof {
        assert(tags_view(Seq::<(String, String)>::empty()) =~= Seq::<
            (Seq<char>, Seq<char>),
        >::empty());
    }
    r
}

/// The fixed registration handshake for `user`, in send order:
/// `CAP LS 302`, `NICK <nick>`, `USER <name> 0 * :<real name>`, `CAP END`.
pub fn registration_messages(user: &User) -> (r: Vec<Message>)
    ensures
        r@.len() == 4,
        r@[0]@ == simple_msg("CAP"@, seq!["LS"@, "302"@]),
        r@[1]@ == simple_msg("NICK"@, seq![user.nick@]),
        r@[2]@ == simple_msg(
            "USER"@,
            seq![spec_username(*user), "0"@, "*"@, spec_realname(*user)],
        ),
        r@[3]@ == simple_msg("CAP"@, seq!["END"@]),
{
    let mut out: Vec<Message> = Vec::new();

    let mut cap_ls_params: Vec<String> = Vec::new();
    cap_ls_params.push(String::from_str("LS"));
    cap_ls_params.push(String::from_str("302"));
    out.push(make_msg(String::from_str("CAP"), cap_ls_params));

    let mut nick_params: Vec<String> = Vec::new();
    nick_params.push(user.nick.clone());
    out.push(make_msg(String::from_str("NICK"), nick_params));

    let name: String = match &user.name {
        Some(n) => n.clone(),
        None => user.nick.clone(),
    };
    let real_name: String = match &user.real_name {
        Some(n) => n.clone(),
        None => String::from_str("Anonymous"),
    };
    let mut user_params: Vec<String> = Vec::new();
    user_params.push(name);
    user_params.push(String::from_str("0"));
    user_params.push(String::from_str("*"));
    user_params.push(real_name);
    out.push(make_msg(String::from_str("USER"), user_params));

    let mut cap_end_params: Vec<String> = Vec::new();
    cap_end_params.push(String::from_str("END"));
    out.push(make_msg(String::from_str("CAP"), cap_end_params));

    proof {
        assert(params_view(out@[0].params@) =~= seq!["LS"@, "302"@]);
        assert(params_view(out@[1].params@) =~= seq![user.nick@]);
        assert(params_view(out@[2].params@) =~= seq![
            spec_username(*user),
            "0"@,
            "*"@,
            spec_realname(*user),
        ]);
        assert(params_view(out@[3].params@) =~= seq!["END"@]);
    }
    out
}

/// The four registration lines exactly as they go over the wire, CR LF
/// terminated: `CAP LS 302`, `NICK <nick>`, `USER <name> 0 * :<real name>`,
/// `CAP END`.
pub fn registration_lines(user: &User) -> (r: Vec<String>)
    ensures
        r@.len() == 4,
        r@[0]@ == "CAP LS 302\r\n"@,
        r@[1]@ == "NICK "@ + user.nick@ + "\r\n"@,
        r@[2]@ == "USER "@ + spec_username(*user) + " 0 * :"@ + spec_realname(*user) + "\r\n"@,
        r@[3]@ == "CAP END\r\n"@,
{
    let mut out: Vec<String> = Vec::new();

    out.push(String::from_str("CAP LS 302\r\n"));

    let mut nick_line = String::from_str("NICK ");
    nick_line.append(user.nick.as_str());
    nick_line.append("\r\n");
    out.push(nick_line);

    let mut user_line = String::from_str("USER ");
    match &user.name {
        Some(n) => user_line.append(n.as_str()),
        None => user_line.append(user.nick.as_str()),
    }
    user_line.append(" 0 * :");
    match &user.real_name {
        Some(n) => user_line.append(n.as_str()),
        None => user_line.append("Anonymous"),
    }
    user_line.append("\r\n");
    out.push(user_line);

    out.push(String::from_str("CAP END\r\n"));
    out
}

/// The session states, in order of progress.
#[derive(Clone, Copy, Debug, PartialEq, Eq, Structural)]
pub enum SessionState {
    /// Establishing the transport.
    Connecting,
    /// Sending the fixed registration sequence.
    Registering,
    /// Pumping both directions of the duplex bridge.
    Streaming,
    /// Terminal: the session is over.
    Closed,
}

/// What the orchestrator's surroundings report back.
#[derive(Clone, Copy, Debug, PartialEq, Eq, Structural)]
pub enum SessionEvent {
    /// The transport was established.
    Connected,
    /// The transport could not be established.
    ConnectFailed,
    /// Every registration message was written.
    RegistrationSent,
    /// A send failed during registration.
    RegistrationFailed,
    /// One pumping direction erred or closed.
    StreamEnded,
}

/// What the surrounding loop must do after a transition.
#[derive(Clone, Copy, Debug, PartialEq, Eq, Structural)]
pub enum SessionAction {
    /// Send the registration handshake.
    SendRegistration,
    /// Bridge local I/O and the transport until one side ends.
    Pump,
    /// Stop: the session is over.
    Stop,
}

/// The orchestrator's transition table. Failures are fatal: every error
/// event, and any event out of order, closes the session.
pub open spec fn spec_session_step(s: SessionState, e: SessionEvent) -> (
    SessionState,
    SessionAction,
) {
    match (s, e) {
        (SessionState::Connecting, SessionEvent::Connected) => (
            SessionState::Registering,
            SessionAction::SendRegistration,
        ),
        (SessionState::Registering, SessionEvent::RegistrationSent) => (
            SessionState::Streaming,
            SessionAction::Pump,
        ),
        _ => (SessionState::Closed, SessionAction::Stop),
    }
}

/// One step of the session state machine.
pub fn session_step(s: SessionState, e: SessionEvent) -> (r: (SessionState, SessionAction))
    ensures
        r == spec_session_step(s, e),
{
    match (s, e) {
        (SessionState::Connecting, SessionEvent::Connected) => (
            SessionState::Registering,
            SessionAction::SendRegistration,
        ),
        (SessionState::Registering, SessionEvent::RegistrationSent) => (
            SessionState::Streaming,
            SessionAction::Pump,
        ),
        _ => (SessionState::Closed, SessionAction::Stop),
    }
}

} // verus!
