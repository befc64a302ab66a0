//! The executable message parser, proved against the specification in
//! `proto`.
//!
//! Parsing works on a vector of characters; each stage mirrors one
//! specification function and hands an owned copy of the remainder to the
//! next.

use crate::proto::{
    classify_token, digit_val, fold_tags, fold_tags_into, insert_tag, is_digit, keys_unique,
    parse_cmd, parse_frame, parse_line, parse_params, parse_rest, parse_tag_entries,
    parse_tag_entry, params_view, split_middles, tags_view, wf_message, Command, CommandView,
    Message, MessageView,
};
use crate::reply::Reply;
use crate::text::{bytes_to_string, chars_to_string, find_char, str_to_chars, subvec, trim_front};
use crate::DecodeError;
use vstd::pervasive::VecAdditionalExecFns;
use vstd::prelude::*;
use vstd::string::StringExecFns;

verus! {

/// The executable result agrees with the specified one, value for value.
pub open spec fn decode_matches(
    r: Result<Message, DecodeError>,
    v: Result<MessageView, DecodeError>,
) -> bool {
    match (r, v) {
        (Ok(m), Ok(mv)) => m@ == mv,
        (Err(e), Err(ev)) => e == ev,
        _ => false,
    }
}

/// Insert one tag, overwriting the entry with the same key if present.
fn insert_tag_exec(out: &mut Vec<(String, String)>, k: String, v: String)
    ensures
        tags_view(final(out)@) == insert_tag(tags_view(old(out)@), k@, v@),
{
    let n = out.len();
    let mut idx: usize = 0;
    while idx < n
        invariant
            idx <= n,
            n == out@.len(),
            out@ == old(out)@,
            forall|j: int| 0 <= j < idx ==> out@[j].0@ != k@,
        decreases n - idx,
    {
        if out[idx].0 == k {
            let ghost pre = tags_view(out@);
            let ghost gk = k@;
            let ghost gv = v@;
            proof {
                lemma_insert_tag_found(pre, gk, gv, idx as int);
            }
            out.set(idx, (k, v));
            proof {
                assert(tags_view(out@) =~~= pre.update(idx as int, (gk, gv)));
            }
            return ;
        }
        idx += 1;
    }
    let ghost pre = tags_view(out@);
    let ghost gk = k@;
    let ghost gv = v@;
    proof {
        lemma_insert_tag_absent(pre, gk, gv);
    }
    out.push((k, v));
    proof {
        assert(tags_view(out@) =~~= pre.push((gk, gv)));
    }
}

/// `insert_tag` overwrites in place at the first matching key.
proof fn lemma_insert_tag_found(
    tags: Seq<(Seq<char>, Seq<char>)>,
    k: Seq<char>,
    v: Seq<char>,
    idx: int,
)
    requires
        0 <= idx < tags.len(),
        tags[idx].0 == k,
        forall|j: int| 0 <= j < idx ==> tags[j].0 != k,
    ensures
        insert_tag(tags, k, v) == tags.update(idx, (k, v)),
    decreases tags.len(),
{
    if idx == 0 {
        assert(insert_tag(tags, k, v) =~= tags.update(0, (k, v)));
    } else {
        let rest = tags.subrange(1, tags.len() as int);
        lemma_insert_tag_found(rest, k, v, idx - 1);
        assert(seq![tags[0]] + rest.update(idx - 1, (k, v)) =~= tags.update(idx, (k, v)));
    }
}

/// `insert_tag` appends when the key is absent.
pub proof fn lemma_insert_tag_absent(tags: Seq<(Seq<char>, Seq<char>)>, k: Seq<char>, v: Seq<char>)
    requires
        forall|j: int| 0 <= j < tags.len() ==> tags[j].0 != k,
    ensures
        insert_tag(tags, k, v) == tags.push((k, v)),
    decreases tags.len(),
{
    if tags.len() == 0 {
        assert(insert_tag(tags, k, v) =~= tags.push((k, v)));
    } else {
        let rest = tags.subrange(1, tags.len() as int);
        lemma_insert_tag_absent(rest, k, v);
        assert(seq![tags[0]] + rest.push((k, v)) =~= tags.push((k, v)));
    }
}

/// `insert_tag` keeps keys unique.
proof fn lemma_insert_tag_unique(tags: Seq<(Seq<char>, Seq<char>)>, k: Seq<char>, v: Seq<char>)
    requires
        keys_unique(tags),
    ensures
        keys_unique(insert_tag(tags, k, v)),
{
    if exists|j: int| 0 <= j < tags.len() && tags[j].0 == k {
        let j0 = choose|j0: int|
            0 <= j0 < tags.len() && tags[j0].0 == k && forall|j: int|
                0 <= j < j0 ==> tags[j].0 != k;
        lemma_insert_tag_found(tags, k, v, j0);
    } else {
        lemma_insert_tag_absent(tags, k, v);
    }
}

/// Parse a tag section (the text between `@` and the first space) into a
/// tag list with unique keys.
fn parse_tags_section(sec: &Vec<char>) -> (out: Vec<(String, String)>)
    ensures
        tags_view(out@) == fold_tags(parse_tag_entries(sec@)),
        keys_unique(tags_view(out@)),
{
    let mut out: Vec<(String, String)> = Vec::new();
    let mut rem: Vec<char> = subvec(sec, 0, sec.len());
    proof {
        assert(tags_view(out@) =~= Seq::<(Seq<char>, Seq<char>)>::empty());
        assert(sec@.subrange(0, sec@.len() as int) =~= sec@);
    }
    loop
        invariant
            fold_tags_into(tags_view(out@), parse_tag_entries(rem@)) == fold_tags(
                parse_tag_entries(sec@),
            ),
            keys_unique(tags_view(out@)),
        decreases rem@.len(),
    {
        let ghost entries = parse_tag_entries(rem@);
        let i = find_char(&rem, 0, ';');
        let entry_end = if i < rem.len() {
            i
        } else {
            rem.len()
        };
        let entry = subvec(&rem, 0, entry_end);
        proof {
            if i < rem.len() {
                assert(entries == seq![parse_tag_entry(entry@)] + parse_tag_entries(
                    rem@.subrange(i + 1, rem@.len() as int),
                ));
            } else {
                assert(entry@ =~= rem@);
                assert(entries == seq![parse_tag_entry(rem@)]);
            }
        }
        // split the entry at its first `=`
        let j = find_char(&entry, 0, '=');
        let (k, v): (String, String) = if j < entry.len() {
            (
                chars_to_string(&subvec(&entry, 0, j)),
                chars_to_string(&subvec(&entry, j + 1, entry.len())),
            )
        } else {
            proof {
                assert(entry@.subrange(0, entry@.len() as int) =~= entry@);
            }
            (chars_to_string(&subvec(&entry, 0, entry.len())), String::from_str("true"))
        };
        proof {
            assert((k@, v@) == parse_tag_entry(entry@));
            lemma_insert_tag_unique(tags_view(out@), k@, v@);
        }
        let ghost before = tags_view(out@);
        insert_tag_exec(&mut out, k, v);
        proof {
            assert(entries[0] == parse_tag_entry(entry@));
            assert(entries.subrange(1, entries.len() as int) =~= if i < rem.len() {
                parse_tag_entries(rem@.subrange(i + 1, rem@.len() as int))
            } else {
                Seq::<(Seq<char>, Seq<char>)>::empty()
            });
        }
        if i < rem.len() {
            let next = subvec(&rem, i + 1, rem.len());
            rem = next;
        } else {
            proof {
                assert(fold_tags_into(before, entries) == fold_tags_into(
                    tags_view(out@),
                    entries.subrange(1, entries.len() as int),
                ));
                assert(fold_tags_into(
                    tags_view(out@),
                    Seq::<(Seq<char>, Seq<char>)>::empty(),
                ) == tags_view(out@));
            }
            return out;
        }
    }
}

/// Classify one command token.
fn classify_token_exec(tok: &Vec<char>) -> (r: Result<Command, DecodeError>)
    ensures
        match (r, classify_token(tok@)) {
            (Ok(c), Ok(cv)) => c@ == cv,
            (Err(e), Err(ev)) => e == ev,
            _ => false,
        },
{
    if tok.len() == 3 && digit_of(tok[0]) < 10 && digit_of(tok[1]) < 10 && digit_of(tok[2]) < 10 {
        let n: u16 = digit_of(tok[0]) * 100 + digit_of(tok[1]) * 10 + digit_of(tok[2]);
        match Reply::from_code(n) {
            Ok(rep) => Ok(Command::Reply(rep)),
            Err(e) => Err(e),
        }
    } else {
        Ok(Command::Verb(chars_to_string(tok)))
    }
}

/// The decimal value of a digit character, or 10 and above for any other
/// character.
fn digit_of(c: char) -> (d: u16)
    ensures
        d < 10 <==> is_digit(c),
        is_digit(c) ==> d == digit_val(c),
{
    let u = c as u32;
    if 48 <= u && u <= 57 {
        (u - 48) as u16
    } else {
        10
    }
}

/// Split the middle-parameter region on spaces, dropping empty pieces.
fn split_middles_exec(s: &Vec<char>) -> (out: Vec<String>)
    ensures
        params_view(out@) == split_middles(s@),
{
    let mut out: Vec<String> = Vec::new();
    let mut rem: Vec<char> = subvec(s, 0, s.len());
    proof {
        assert(params_view(out@) =~= Seq::<Seq<char>>::empty());
        assert(s@.subrange(0, s@.len() as int) =~= s@);
    }
    loop
        invariant
            params_view(out@) + split_middles(rem@) == split_middles(s@),
        decreases rem@.len(),
    {
        let i = find_char(&rem, 0, ' ');
        if i < rem.len() {
            if i > 0 {
                let ghost before = params_view(out@);
                let piece = chars_to_string(&subvec(&rem, 0, i));
                out.push(piece);
                proof {
                    assert(params_view(out@) =~= before.push(piece@));
                    assert(before.push(piece@) =~= before + seq![rem@.subrange(0, i as int)]);
                }
            }
            let next = subvec(&rem, i + 1, rem.len());
            proof {
                assert((params_view(out@) + seq![rem@.subrange(0, i as int)]) + split_middles(
                    next@,
                ) =~= params_view(out@) + (seq![rem@.subrange(0, i as int)] + split_middles(
                    next@,
                )));
            }
            rem = next;
        } else {
            if rem.len() > 0 {
                let ghost before = params_view(out@);
                proof {
                    assert(rem@.subrange(0, rem@.len() as int) =~= rem@);
                }
                let piece = chars_to_string(&subvec(&rem, 0, rem.len()));
                out.push(piece);
                proof {
                    assert(params_view(out@) =~= before.push(piece@));
                    assert(before.push(piece@) =~= before + seq![rem@]);
                }
            }
            proof {
                assert(params_view(out@) =~= params_view(out@) + Seq::<Seq<char>>::empty());
            }
            return out;
        }
    }
}

/// Parse the parameter region: middles before the first `:`, trailing after
/// it; the trailing parameter is appended even when absent.
fn parse_params_exec(r: &Vec<char>) -> (out: Vec<String>)
    ensures
        params_view(out@) == parse_params(r@),
        out@.len() >= 1,
{
    let i = find_char(r, 0, ':');
    let (mids, trailing): (Vec<char>, Vec<char>) = if i < r.len() {
        (subvec(r, 0, i), subvec(r, i + 1, r.len()))
    } else {
        proof {
            assert(r@.subrange(0, r@.len() as int) =~= r@);
        }
        (subvec(r, 0, r.len()), Vec::new())
    };
    let mut out = split_middles_exec(&mids);
    let t = chars_to_string(&trailing);
    out.push(t);
    proof {
        assert(params_view(out@) =~= params_view(out@.subrange(0, out@.len() - 1)).push(t@));
        assert(out@.subrange(0, out@.len() - 1) =~= out@.drop_last());
    }
    out
}

/// Steps 3 and 4: read the command token, classify it, then parse the
/// parameters of the remainder.
fn parse_after_prefix(
    tags: Vec<(String, String)>,
    prefix: Option<String>,
    r2: Vec<char>,
) -> (r: Result<Message, DecodeError>)
    requires
        keys_unique(tags_view(tags@)),
    ensures
        decode_matches(
            r,
            parse_cmd(
                tags_view(tags@),
                match prefix {
                    Some(p) => Some(p@),
                    None => None,
                },
                r2@,
            ),
        ),
        r matches Ok(m) ==> wf_message(m@),
{
    let r3 = trim_front(&r2);
    let k = find_char(&r3, 0, ' ');
    let tok = subvec(&r3, 0, k);
    let rest = subvec(&r3, k, r3.len());
    match classify_token_exec(&tok) {
        Ok(cmd) => {
            let r5 = trim_front(&rest);
            let params = parse_params_exec(&r5);
            Ok(Message { tags, prefix, command: cmd, params })
        }
        Err(e) => Err(e),
    }
}

/// Step 2: the optional prefix, then the rest of the line.
fn parse_after_tags(tags: Vec<(String, String)>, r0: Vec<char>) -> (r: Result<Message, DecodeError>)
    requires
        keys_unique(tags_view(tags@)),
    ensures
        decode_matches(r, parse_rest(tags_view(tags@), r0@)),
        r matches Ok(m) ==> wf_message(m@),
{
    let r1 = trim_front(&r0);
    if r1.len() > 0 && r1[0] == ':' {
        let i = find_char(&r1, 0, ' ');
        if i == r1.len() {
            return Err(DecodeError::MalformedPrefix);
        }
        let prefix = chars_to_string(&subvec(&r1, 1, i));
        let r2 = subvec(&r1, i, r1.len());
        parse_after_prefix(tags, Some(prefix), r2)
    } else {
        parse_after_prefix(tags, None, r1)
    }
}

impl Message {
    /// Parse one line of characters, its CR LF terminator already removed.
    ///
    /// Succeeds or fails exactly as `parse_line` specifies; a parsed
    /// message always carries at least one parameter and unique tag keys.
    pub fn parse_chars(line: &Vec<char>) -> (r: Result<Message, DecodeError>)
        ensures
            decode_matches(r, parse_line(line@)),
            r matches Ok(m) ==> wf_message(m@),
    {
        if line.len() > 0 && line[0] == '@' {
            let i = find_char(line, 0, ' ');
            if i == line.len() {
                return Err(DecodeError::MalformedTags);
            }
            let sec = subvec(line, 1, i);
            let tags = parse_tags_section(&sec);
            let rest = subvec(line, i, line.len());
            parse_after_tags(tags, rest)
        } else {
            let own = subvec(line, 0, line.len());
            proof {
                assert(own@ =~= line@);
                assert(tags_view(Seq::<(String, String)>::empty())
                    =~= Seq::<(Seq<char>, Seq<char>)>::empty());
            }
            parse_after_tags(Vec::new(), own)
        }
    }

    /// Parse the bytes of one frame, its CR LF terminator already removed.
    ///
    /// The bytes must be valid UTF-8; the decoded line then parses as
    /// `parse_line` specifies.
    pub fn parse_bytes(frame: Vec<u8>) -> (r: Result<Message, DecodeError>)
        ensures
            decode_matches(r, parse_frame(frame@)),
            r matches Ok(m) ==> wf_message(m@),
    {
        match bytes_to_string(frame) {
            Some(s) => {
                let chars = str_to_chars(s.as_str());
                Message::parse_chars(&chars)
            }
            None => Err(DecodeError::InvalidUtf8),
        }
    }
}

} // verus!
