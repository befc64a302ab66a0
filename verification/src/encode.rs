//! The executable message encoder, proved against the specification in
//! `proto`.
//!
//! Encoding is a pure function of the message value: the result is pinned
//! to `encode_msg` of the message's view, so two encodings of one message
//! are always byte-identical.

use crate::proto::{
    code_chars, crlf, digit_char, encode_body, encode_command, encode_msg, encode_prefix,
    encode_tag, encode_tag_entries, encode_tags, encode_params, join_spaces, params_view,
    tags_view, Command, CommandView, Message, MessageView,
};
use crate::text::{chars_to_string, str_to_chars, string_to_bytes};
use vstd::prelude::*;

verus! {

/// Append all characters of `add` to `out`.
fn extend_chars(out: &mut Vec<char>, add: &Vec<char>)
    ensures
        final(out)@ == old(out)@ + add@,
{
    let ghost pre = out@;
    let n = add.len();
    let mut i: usize = 0;
    proof {
        assert(pre + add@.subrange(0, 0) =~= pre);
    }
    while i < n
        invariant
            i <= n,
            n == add@.len(),
            out@ == pre + add@.subrange(0, i as int),
        decreases n - i,
    {
        out.push(add[i]);
        proof {
            assert(pre + add@.subrange(0, i + 1 as int) =~= (pre + add@.subrange(
                0,
                i as int,
            )).push(add@[i as int]));
        }
        i += 1;
    }
    proof {
        assert(add@.subrange(0, n as int) =~= add@);
    }
}

/// Encode the tag entries at and after `from`, joined with `;`.
fn encode_entries_exec(tags: &Vec<(String, String)>, from: usize) -> (r: Vec<char>)
    requires
        from <= tags@.len(),
    ensures
        r@ == encode_tag_entries(tags_view(tags@).subrange(from as int, tags@.len() as int)),
    decreases tags@.len() - from,
{
    let ghost sub = tags_view(tags@).subrange(from as int, tags@.len() as int);
    let mut r: Vec<char> = Vec::new();
    if from == tags.len() {
        proof {
            assert(sub =~= Seq::<(Seq<char>, Seq<char>)>::empty());
        }
        return r;
    }
    let kc = str_to_chars(tags[from].0.as_str());
    let vc = str_to_chars(tags[from].1.as_str());
    extend_chars(&mut r, &kc);
    r.push('=');
    extend_chars(&mut r, &vc);
    proof {
        assert(sub[0] == (tags@[from as int].0@, tags@[from as int].1@));
        assert(r@ =~= encode_tag(sub[0]));
    }
    if from + 1 < tags.len() {
        let ghost head = r@;
        r.push(';');
        let rest = encode_entries_exec(tags, from + 1);
        extend_chars(&mut r, &rest);
        proof {
            assert(sub.subrange(1, sub.len() as int) =~= tags_view(tags@).subrange(
                from + 1 as int,
                tags@.len() as int,
            ));
            assert(r@ =~= head + seq![';'] + encode_tag_entries(sub.subrange(1, sub.len() as int)));
        }
    }
    r
}

/// Join the parameters in `[from, to)` with single spaces.
fn join_spaces_exec(params: &Vec<String>, from: usize, to: usize) -> (r: Vec<char>)
    requires
        from <= to <= params@.len(),
    ensures
        r@ == join_spaces(params_view(params@).subrange(from as int, to as int)),
    decreases to - from,
{
    let ghost sub = params_view(params@).subrange(from as int, to as int);
    let mut r: Vec<char> = Vec::new();
    if from == to {
        proof {
            assert(sub =~= Seq::<Seq<char>>::empty());
        }
        return r;
    }
    let pc = str_to_chars(params[from].as_str());
    extend_chars(&mut r, &pc);
    proof {
        assert(sub[0] == params@[from as int]@);
        assert(r@ =~= sub[0]);
    }
    if from + 1 < to {
        let ghost head = r@;
        r.push(' ');
        let rest = join_spaces_exec(params, from + 1, to);
        extend_chars(&mut r, &rest);
        proof {
            assert(sub.subrange(1, sub.len() as int) =~= params_view(params@).subrange(
                from + 1 as int,
                to as int,
            ));
            assert(r@ =~= head + seq![' '] + join_spaces(sub.subrange(1, sub.len() as int)));
        }
    }
    r
}

/// The three decimal digits of a reply code below 1000.
fn code_chars_exec(n: u16) -> (r: Vec<char>)
    requires
        n <= 999,
    ensures
        r@ == code_chars(n),
{
    let mut r: Vec<char> = Vec::new();
    let d0: u8 = 48 + ((n / 100) % 10) as u8;
    let d1: u8 = 48 + ((n / 10) % 10) as u8;
    let d2: u8 = 48 + (n % 10) as u8;
    r.push(d0 as char);
    r.push(d1 as char);
    r.push(d2 as char);
    proof {
        assert(r@ =~= code_chars(n));
    }
    r
}

/// A verb verbatim; a numeric reply as its three-digit decimal code.
fn encode_command_exec(c: &Command) -> (r: Vec<char>)
    ensures
        r@ == encode_command(c@),
{
    match c {
        Command::Verb(s) => str_to_chars(s.as_str()),
        Command::Reply(rep) => {
            proof {
                crate::reply::lemma_reply_code_round_trip(*rep);
            }
            code_chars_exec(rep.code())
        }
    }
}

/// The whole line body (before the terminator), as characters.
fn encode_chars(m: &Message) -> (r: Vec<char>)
    ensures
        r@ == encode_body(m@),
{
    let mut out: Vec<char> = Vec::new();
    if m.tags.len() > 0 {
        out.push('@');
        let entries = encode_entries_exec(&m.tags, 0);
        extend_chars(&mut out, &entries);
        out.push(' ');
        proof {
            assert(tags_view(m.tags@).subrange(0, m.tags@.len() as int) =~= tags_view(m.tags@));
            assert(out@ =~= encode_tags(m@.tags));
        }
    } else {
        proof {
            assert(out@ =~= encode_tags(m@.tags));
        }
    }
    let ghost tags_done = out@;
    match &m.prefix {
        Some(p) => {
            out.push(':');
            let pc = str_to_chars(p.as_str());
            extend_chars(&mut out, &pc);
            out.push(' ');
            proof {
                assert(out@ =~= tags_done + encode_prefix(m@.prefix));
            }
        }
        None => {
            proof {
                assert(out@ =~= tags_done + encode_prefix(m@.prefix));
            }
        }
    }
    let ghost prefix_done = out@;
    let cmd = encode_command_exec(&m.command);
    extend_chars(&mut out, &cmd);
    out.push(' ');
    let ghost cmd_done = out@;
    proof {
        assert(cmd_done =~= prefix_done + encode_command(m@.command) + seq![' ']);
    }
    if m.params.len() > 0 {
        let mids = join_spaces_exec(&m.params, 0, m.params.len() - 1);
        extend_chars(&mut out, &mids);
        out.push(' ');
        out.push(':');
        let tc = str_to_chars(m.params[m.params.len() - 1].as_str());
        extend_chars(&mut out, &tc);
        proof {
            assert(params_view(m.params@).subrange(0, m.params@.len() - 1) =~= params_view(
                m.params@,
            ).subrange(0, params_view(m.params@).len() - 1));
            assert(m@.params[m@.params.len() - 1] == m.params@[m.params@.len() - 1]@);
            assert(out@ =~= cmd_done + encode_params(m@.params));
        }
    } else {
        proof {
            assert(out@ =~= cmd_done + encode_params(m@.params));
        }
    }
    proof {
        assert(out@ =~= encode_body(m@));
    }
    out
}

impl Message {
    /// Serialize this message to its wire bytes: the encoded line followed
    /// by CR LF.
    ///
    /// The result is exactly the UTF-8 encoding of `encode_msg` of this
    /// message's value, so encoding is deterministic: encoding one message
    /// twice yields identical bytes both times.
    pub fn encode(&self) -> (r: Vec<u8>)
        ensures
            r@ == vstd::utf8::encode_utf8(encode_msg(self@)),
    {
        let mut chars = encode_chars(self);
        chars.push('\r');
        chars.push('\n');
        proof {
            assert(chars@ =~= encode_msg(self@));
        }
        let s = chars_to_string(&chars);
        string_to_bytes(&s)
    }
}

} // verus!
