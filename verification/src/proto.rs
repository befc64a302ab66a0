//! The protocol data model: the `Message` exchanged with a server, its wire
//! command, the session `User`, and the mathematical description of how a
//! message is read from and written to a line of text.
//!
//! A wire line is `[@tags ][:prefix ]<command> [middle ...][ :trailing]` and
//! is terminated by CR LF. The specification functions here define parsing
//! and encoding over `Seq<char>`; the executable parser and encoder are
//! proved against them.

use crate::reply::Reply;
use crate::text::find_at;
use crate::text::trim_spaces;
use crate::DecodeError;
use vstd::prelude::*;

verus! {

/// The wire command of a message: a textual verb, or a classified numeric
/// reply.
#[derive(Clone, Debug)]
pub enum Command {
    Verb(String),
    Reply(Reply),
}

/// Mathematical value of a `Command`.
pub ghost enum CommandView {
    Verb(Seq<char>),
    Reply(Reply),
}

impl View for Command {
    type V = CommandView;

    open spec fn view(&self) -> CommandView {
        match self {
            Command::Verb(s) => CommandView::Verb(s@),
            Command::Reply(r) => CommandView::Reply(*r),
        }
    }
}

/// One unit of protocol exchange: optional tags and prefix, a command, and
/// the parameters, of which the last is the trailing parameter.
#[derive(Clone, Debug)]
pub struct Message {
    /// Tag entries in encoding order; keys are unique.
    pub tags: Vec<(String, String)>,
    /// Origin of the message; absent for client-originated messages.
    pub prefix: Option<String>,
    pub command: Command,
    /// All parameters; the last one is the trailing parameter.
    pub params: Vec<String>,
}

/// Mathematical value of a `Message`.
pub ghost struct MessageView {
    pub tags: Seq<(Seq<char>, Seq<char>)>,
    pub prefix: Option<Seq<char>>,
    pub command: CommandView,
    pub params: Seq<Seq<char>>,
}

/// Mathematical value of a tag list.
pub open spec fn tags_view(tags: Seq<(String, String)>) -> Seq<(Seq<char>, Seq<char>)> {
    tags.map_values(|t: (String, String)| (t.0@, t.1@))
}

/// Mathematical value of a parameter list.
pub open spec fn params_view(params: Seq<String>) -> Seq<Seq<char>> {
    params.map_values(|s: String| s@)
}

impl View for Message {
    type V = MessageView;

    open spec fn view(&self) -> MessageView {
        MessageView {
            tags: tags_view(self.tags@),
            prefix: match self.prefix {
                Some(p) => Some(p@),
                None => None,
            },
            command: self.command@,
            params: params_view(self.params@),
        }
    }
}

/// The session identity: nickname, optional login name, optional display
/// name.
#[derive(Clone, Debug)]
pub struct User {
    pub nick: String,
    pub name: Option<String>,
    pub real_name: Option<String>,
}

impl User {
    pub fn new(nick: String, name: Option<String>, real_name: Option<String>) -> (u: User)
        ensures
            u.nick == nick,
            u.name == name,
            u.real_name == real_name,
    {
        User { nick, name, real_name }
    }
}

// ------------------------------------------------------------------
// Parsing, described over character sequences.
// ------------------------------------------------------------------
/// No two tag entries share a key.
pub open spec fn keys_unique(tags: Seq<(Seq<char>, Seq<char>)>) -> bool {
    forall|i: int, j: int| 0 <= i < j < tags.len() ==> tags[i].0 != tags[j].0
}

/// The parser's output invariant: at least one parameter (the implicit
/// trailing parameter), and unique tag keys.
pub open spec fn wf_message(m: MessageView) -> bool {
    m.params.len() >= 1 && keys_unique(m.tags)
}

/// One raw tag entry split at its first `=`; an entry without `=` stands
/// for the boolean value rendered `"true"`.
pub open spec fn parse_tag_entry(e: Seq<char>) -> (Seq<char>, Seq<char>) {
    let j = find_at(e, 0, '=');
    if j < e.len() {
        (e.subrange(0, j), e.subrange(j + 1, e.len() as int))
    } else {
        (e, "true"@)
    }
}

/// The raw entries of a tag section, split on `;`.
pub open spec fn parse_tag_entries(sec: Seq<char>) -> Seq<(Seq<char>, Seq<char>)>
    decreases sec.len(),
{
    let i = find_at(sec, 0, ';');
    if 0 <= i && i < sec.len() {
        seq![parse_tag_entry(sec.subrange(0, i))] + parse_tag_entries(
            sec.subrange(i + 1, sec.len() as int),
        )
    } else {
        seq![parse_tag_entry(sec)]
    }
}

/// Insert one entry into a tag list: a duplicate key overwrites in place,
/// a new key is appended.
pub open spec fn insert_tag(
    tags: Seq<(Seq<char>, Seq<char>)>,
    k: Seq<char>,
    v: Seq<char>,
) -> Seq<(Seq<char>, Seq<char>)>
    decreases tags.len(),
{
    if tags.len() == 0 {
        seq![(k, v)]
    } else if tags[0].0 == k {
        seq![(k, v)] + tags.subrange(1, tags.len() as int)
    } else {
        seq![tags[0]] + insert_tag(tags.subrange(1, tags.len() as int), k, v)
    }
}

/// Fold raw entries into a tag list, left to right.
pub open spec fn fold_tags_into(
    acc: Seq<(Seq<char>, Seq<char>)>,
    entries: Seq<(Seq<char>, Seq<char>)>,
) -> Seq<(Seq<char>, Seq<char>)>
    decreases entries.len(),
{
    if entries.len() == 0 {
        acc
    } else {
        fold_tags_into(
            insert_tag(acc, entries[0].0, entries[0].1),
            entries.subrange(1, entries.len() as int),
        )
    }
}

/// The tag list a raw entry sequence denotes.
pub open spec fn fold_tags(entries: Seq<(Seq<char>, Seq<char>)>) -> Seq<(Seq<char>, Seq<char>)> {
    fold_tags_into(Seq::empty(), entries)
}

/// Is `c` an ASCII decimal digit?
pub open spec fn is_digit(c: char) -> bool {
    48 <= c as u32 <= 57
}

/// Numeric commands are exactly three digits.
pub open spec fn is_numeric_token(tok: Seq<char>) -> bool {
    tok.len() == 3 && is_digit(tok[0]) && is_digit(tok[1]) && is_digit(tok[2])
}

pub open spec fn digit_val(c: char) -> u16 {
    (c as u32 - 48) as u16
}

/// The value of a three-digit token.
pub open spec fn numeric_value(tok: Seq<char>) -> u16 {
    (digit_val(tok[0]) * 100 + digit_val(tok[1]) * 10 + digit_val(tok[2])) as u16
}

/// Classify a command token: a three-digit token must name a known reply,
/// anything else is a textual verb.
pub open spec fn classify_token(tok: Seq<char>) -> Result<CommandView, DecodeError> {
    if is_numeric_token(tok) {
        match Reply::spec_from_code(numeric_value(tok)) {
            Some(r) => Ok(CommandView::Reply(r)),
            None => Err(DecodeError::UnknownReplyCode(numeric_value(tok))),
        }
    } else {
        Ok(CommandView::Verb(tok))
    }
}

/// The middle parameters: the region before the trailing marker, split on
/// spaces, empty pieces dropped.
pub open spec fn split_middles(s: Seq<char>) -> Seq<Seq<char>>
    decreases s.len(),
{
    let i = find_at(s, 0, ' ');
    if 0 <= i && i < s.len() {
        let rest = split_middles(s.subrange(i + 1, s.len() as int));
        if i == 0 {
            rest
        } else {
            seq![s.subrange(0, i)] + rest
        }
    } else {
        if s.len() == 0 {
            seq![]
        } else {
            seq![s]
        }
    }
}

/// The parameters of a message: middles before the first `:`, and the
/// trailing parameter after it, appended even when absent or empty.
pub open spec fn parse_params(r: Seq<char>) -> Seq<Seq<char>> {
    let i = find_at(r, 0, ':');
    if 0 <= i && i < r.len() {
        split_middles(r.subrange(0, i)) + seq![r.subrange(i + 1, r.len() as int)]
    } else {
        split_middles(r) + seq![Seq::empty()]
    }
}

/// Steps 3 and 4 of parsing: the command token, then the parameters.
pub open spec fn parse_cmd(
    tags: Seq<(Seq<char>, Seq<char>)>,
    prefix: Option<Seq<char>>,
    r2: Seq<char>,
) -> Result<MessageView, DecodeError> {
    let r3 = trim_spaces(r2);
    let k = find_at(r3, 0, ' ');
    let tok = r3.subrange(0, k);
    let rest = r3.subrange(k, r3.len() as int);
    match classify_token(tok) {
        Ok(cmd) => Ok(
            MessageView { tags, prefix, command: cmd, params: parse_params(trim_spaces(rest)) },
        ),
        Err(e) => Err(e),
    }
}

/// Step 2 of parsing: the optional `:`-led prefix, ended by a space.
pub open spec fn parse_rest(tags: Seq<(Seq<char>, Seq<char>)>, r0: Seq<char>) -> Result<
    MessageView,
    DecodeError,
> {
    let r1 = trim_spaces(r0);
    if r1.len() > 0 && r1[0] == ':' {
        let i = find_at(r1, 0, ' ');
        if i == r1.len() {
            Err(DecodeError::MalformedPrefix)
        } else {
            parse_cmd(tags, Some(r1.subrange(1, i)), r1.subrange(i, r1.len() as int))
        }
    } else {
        parse_cmd(tags, None, r1)
    }
}

/// Parse one line (its CR LF terminator already removed) into a message.
pub open spec fn parse_line(s: Seq<char>) -> Result<MessageView, DecodeError> {
    if s.len() > 0 && s[0] == '@' {
        let i = find_at(s, 0, ' ');
        if i == s.len() {
            Err(DecodeError::MalformedTags)
        } else {
            parse_rest(fold_tags(parse_tag_entries(s.subrange(1, i))), s.subrange(i, s.len() as int))
        }
    } else {
        parse_rest(Seq::empty(), s)
    }
}

/// Parse the bytes of one frame: they must decode as UTF-8, and the decoded
/// line must parse.
pub open spec fn parse_frame(bytes: Seq<u8>) -> Result<MessageView, DecodeError> {
    if vstd::utf8::valid_utf8(bytes) {
        parse_line(vstd::utf8::decode_utf8(bytes))
    } else {
        Err(DecodeError::InvalidUtf8)
    }
}

// ------------------------------------------------------------------
// Encoding, described over character sequences.
// ------------------------------------------------------------------
/// The canonical line terminator.
pub open spec fn crlf() -> Seq<char> {
    seq!['\r', '\n']
}

/// One encoded tag entry: `key=value`.
pub open spec fn encode_tag(t: (Seq<char>, Seq<char>)) -> Seq<char> {
    t.0 + seq!['='] + t.1
}

/// Tag entries joined with `;`.
pub open spec fn encode_tag_entries(tags: Seq<(Seq<char>, Seq<char>)>) -> Seq<char>
    decreases tags.len(),
{
    if tags.len() == 0 {
        Seq::empty()
    } else if tags.len() == 1 {
        encode_tag(tags[0])
    } else {
        encode_tag(tags[0]) + seq![';'] + encode_tag_entries(tags.subrange(1, tags.len() as int))
    }
}

/// The tag section `@entries `, empty when there are no tags.
pub open spec fn encode_tags(tags: Seq<(Seq<char>, Seq<char>)>) -> Seq<char> {
    if tags.len() == 0 {
        Seq::empty()
    } else {
        seq!['@'] + encode_tag_entries(tags) + seq![' ']
    }
}

/// The prefix section `:prefix `, empty when absent.
pub open spec fn encode_prefix(p: Option<Seq<char>>) -> Seq<char> {
    match p {
        Some(pre) => seq![':'] + pre + seq![' '],
        None => Seq::empty(),
    }
}

pub open spec fn digit_char(d: u16) -> char {
    ((48 + d % 10) as u8) as char
}

/// The three decimal digits of a reply code below 1000.
pub open spec fn code_chars(n: u16) -> Seq<char> {
    seq![digit_char(n / 100), digit_char(n / 10), digit_char(n)]
}

/// A verb is rendered verbatim; a numeric reply as its three-digit code.
pub open spec fn encode_command(c: CommandView) -> Seq<char> {
    match c {
        CommandView::Verb(v) => v,
        CommandView::Reply(r) => code_chars(r.spec_code()),
    }
}

/// Parts joined with single spaces.
pub open spec fn join_spaces(parts: Seq<Seq<char>>) -> Seq<char>
    decreases parts.len(),
{
    if parts.len() == 0 {
        Seq::empty()
    } else if parts.len() == 1 {
        parts[0]
    } else {
        parts[0] + seq![' '] + join_spaces(parts.subrange(1, parts.len() as int))
    }
}

/// The parameter section: middles joined with spaces, then ` :` and the
/// trailing parameter, which is always marked.
pub open spec fn encode_params(params: Seq<Seq<char>>) -> Seq<char> {
    if params.len() == 0 {
        Seq::empty()
    } else {
        join_spaces(params.subrange(0, params.len() - 1)) + seq![' ', ':'] + params[params.len()
            - 1]
    }
}

/// The whole line before its terminator.
pub open spec fn encode_body(m: MessageView) -> Seq<char> {
    encode_tags(m.tags) + encode_prefix(m.prefix) + encode_command(m.command) + seq![' ']
        + encode_params(m.params)
}

/// The whole line: body, then CR LF.
pub open spec fn encode_msg(m: MessageView) -> Seq<char> {
    encode_body(m) + crlf()
}

} // verus!
