//! The round-trip law: encoding a canonical message and parsing the
//! resulting line yields the message back, so for every well-formed line
//! parsing followed by encoding reproduces the bytes exactly.

use crate::parse::lemma_insert_tag_absent;
use crate::proto::{
    code_chars, crlf, encode_body, encode_command, encode_msg, encode_params, encode_prefix,
    encode_tag, encode_tag_entries, encode_tags, fold_tags, fold_tags_into, is_numeric_token,
    join_spaces, keys_unique, numeric_value, parse_frame, parse_line, parse_tag_entries,
    parse_tag_entry, split_middles, CommandView, MessageView,
};
use crate::reply::lemma_reply_code_round_trip;
use crate::text::{find_at, lemma_find_at_is, lemma_find_at_none, no_char, trim_spaces};
use crate::DecodeError;
use vstd::prelude::*;

verus! {

/// A character that may stand inside a space-delimited token.
pub open spec fn token_char(c: char) -> bool {
    c != ' ' && c != '\r' && c != '\n'
}

/// A non-empty token free of spaces and line terminators.
pub open spec fn plain_token(s: Seq<char>) -> bool {
    s.len() > 0 && forall|i: int| 0 <= i < s.len() ==> token_char(#[trigger] s[i])
}

/// A tag entry in canonical form: a non-empty key free of the tag
/// delimiters, and a value free of them too (the value may contain `=`).
pub open spec fn tag_ok(t: (Seq<char>, Seq<char>)) -> bool {
    &&& t.0.len() > 0
    &&& forall|i: int|
        0 <= i < t.0.len() ==> token_char(#[trigger] t.0[i]) && t.0[i] != ';' && t.0[i] != '='
    &&& forall|i: int| 0 <= i < t.1.len() ==> token_char(#[trigger] t.1[i]) && t.1[i] != ';'
}

/// A middle parameter: a plain token containing no `:` at all.
pub open spec fn middle_ok(s: Seq<char>) -> bool {
    plain_token(s) && forall|i: int| 0 <= i < s.len() ==> #[trigger] s[i] != ':'
}

/// A trailing parameter: any text free of line terminators.
pub open spec fn trailing_ok(s: Seq<char>) -> bool {
    forall|i: int| 0 <= i < s.len() ==> #[trigger] s[i] != '\r' && s[i] != '\n'
}

/// A verb in canonical form: a plain token that does not open a prefix or
/// tag section and is not shaped like a numeric reply.
pub open spec fn verb_ok(v: Seq<char>) -> bool {
    plain_token(v) && v[0] != ':' && v[0] != '@' && !is_numeric_token(v)
}

/// A message whose encoding is a well-formed line that parses back to it.
pub open spec fn canonical(m: MessageView) -> bool {
    &&& forall|i: int| 0 <= i < m.tags.len() ==> tag_ok(#[trigger] m.tags[i])
    &&& keys_unique(m.tags)
    &&& match m.prefix {
        Some(p) => plain_token(p),
        None => true,
    }
    &&& match m.command {
        CommandView::Verb(v) => verb_ok(v),
        CommandView::Reply(_) => true,
    }
    &&& m.params.len() >= 1
    &&& forall|i: int| 0 <= i < m.params.len() - 1 ==> middle_ok(#[trigger] m.params[i])
    &&& trailing_ok(m.params.last())
}

/// Trimming drops exactly the leading spaces.
proof fn lemma_trim_prefix(s: Seq<char>, k: int)
    requires
        0 <= k <= s.len(),
        forall|j: int| 0 <= j < k ==> #[trigger] s[j] == ' ',
        k < s.len() ==> s[k] != ' ',
    ensures
        trim_spaces(s) == s.subrange(k, s.len() as int),
    decreases k,
{
    if k == 0 {
        assert(s.subrange(0, s.len() as int) =~= s);
    } else {
        let t = s.subrange(1, s.len() as int);
        lemma_trim_prefix(t, k - 1);
        assert(t.subrange(k - 1, t.len() as int) =~= s.subrange(k, s.len() as int));
    }
}

/// The characters of an encoded entry list: tag text plus `=` and `;`, so
/// never a space.
proof fn lemma_entries_no_space(tags: Seq<(Seq<char>, Seq<char>)>)
    requires
        tags.len() >= 1,
        forall|i: int| 0 <= i < tags.len() ==> tag_ok(#[trigger] tags[i]),
    ensures
        no_char(encode_tag_entries(tags), ' '),
    decreases tags.len(),
{
    let t0 = tags[0];
    assert(tag_ok(t0));
    if tags.len() > 1 {
        lemma_entries_no_space(tags.subrange(1, tags.len() as int));
    }
}

/// An encoded entry holds no `;`.
proof fn lemma_entry_no_semi(t: (Seq<char>, Seq<char>))
    requires
        tag_ok(t),
    ensures
        no_char(encode_tag(t), ';'),
{
}

/// One canonical entry parses back to itself.
proof fn lemma_entry_round_trip(t: (Seq<char>, Seq<char>))
    requires
        tag_ok(t),
    ensures
        parse_tag_entry(encode_tag(t)) == t,
{
    let e = encode_tag(t);
    assert(e[t.0.len() as int] == '=');
    lemma_find_at_is(e, '=', t.0.len() as int);
    assert(e.subrange(0, t.0.len() as int) =~= t.0);
    assert(e.subrange(t.0.len() + 1 as int, e.len() as int) =~= t.1);
}

/// A canonical entry list parses back to the same entries.
proof fn lemma_entries_round_trip(tags: Seq<(Seq<char>, Seq<char>)>)
    requires
        tags.len() >= 1,
        forall|i: int| 0 <= i < tags.len() ==> tag_ok(#[trigger] tags[i]),
    ensures
        parse_tag_entries(encode_tag_entries(tags)) == tags,
    decreases tags.len(),
{
    let e = encode_tag_entries(tags);
    let t0 = tags[0];
    assert(tag_ok(t0));
    lemma_entry_no_semi(t0);
    if tags.len() == 1 {
        lemma_find_at_none(e, ';');
        lemma_entry_round_trip(t0);
        assert(parse_tag_entries(e) =~= tags);
    } else {
        let rest = tags.subrange(1, tags.len() as int);
        let e0 = encode_tag(t0);
        let erest = encode_tag_entries(rest);
        // the first `;` stands right after the first entry
        assert(e[e0.len() as int] == ';');
        lemma_find_at_is(e, ';', e0.len() as int);
        assert(e.subrange(0, e0.len() as int) =~= e0);
        assert(e.subrange(e0.len() + 1 as int, e.len() as int) =~= erest);
        lemma_entry_round_trip(t0);
        lemma_entries_round_trip(rest);
        assert(parse_tag_entries(e) =~= seq![t0] + rest);
        assert(seq![t0] + rest =~= tags);
    }
}

/// Folding entries with pairwise-distinct keys appends them unchanged.
proof fn lemma_fold_append(acc: Seq<(Seq<char>, Seq<char>)>, entries: Seq<(Seq<char>, Seq<char>)>)
    requires
        keys_unique(acc + entries),
    ensures
        fold_tags_into(acc, entries) == acc + entries,
    decreases entries.len(),
{
    if entries.len() == 0 {
        assert(acc + entries =~= acc);
    } else {
        let e = entries[0];
        let whole = acc + entries;
        assert(forall|j: int| 0 <= j < acc.len() ==> #[trigger] acc[j].0 != e.0) by {
            assert(e == whole[acc.len() as int]);
            assert(forall|j: int| 0 <= j < acc.len() ==> #[trigger] acc[j] == whole[j]);
        }
        lemma_insert_tag_absent(acc, e.0, e.1);
        assert(acc.push(e) + entries.subrange(1, entries.len() as int) =~= whole);
        lemma_fold_append(acc.push(e), entries.subrange(1, entries.len() as int));
    }
}

/// Folding a canonical entry list is the identity.
proof fn lemma_fold_round_trip(tags: Seq<(Seq<char>, Seq<char>)>)
    requires
        keys_unique(tags),
    ensures
        fold_tags(tags) == tags,
{
    assert(Seq::<(Seq<char>, Seq<char>)>::empty() + tags =~= tags);
    lemma_fold_append(Seq::empty(), tags);
}

/// The three digits of a code below 1000 form a numeric token carrying
/// that code back, and every digit is an unremarkable token character.
proof fn lemma_code_chars(n: u16)
    requires
        n <= 999,
    ensures
        is_numeric_token(code_chars(n)),
        numeric_value(code_chars(n)) == n,
        forall|i: int|
            0 <= i < code_chars(n).len() ==> token_char(#[trigger] code_chars(n)[i]) && code_chars(
                n,
            )[i] != ':' && code_chars(n)[i] != '@',
{
    let c = code_chars(n);
    assert(c[0] == (((48 + (n / 100) % 10) as u8) as char));
    assert(48 + (n / 100) % 10 <= 57);
    assert(48 <= c[0] as u32 <= 57);
    assert(48 <= c[1] as u32 <= 57);
    assert(48 <= c[2] as u32 <= 57);
    assert((n / 100) % 10 == n / 100);
    assert((c[0] as u32 - 48) == (n / 100) as u32);
    assert((c[1] as u32 - 48) == ((n / 10) % 10) as u32);
    assert((c[2] as u32 - 48) == (n % 10) as u32);
    assert((n / 100) * 100 + ((n / 10) % 10) * 10 + n % 10 == n) by (nonlinear_arith)
        requires
            n <= 999,
    ;
}

/// Joined canonical middles hold no `:` and no line terminator.
proof fn lemma_join_chars(mids: Seq<Seq<char>>)
    requires
        forall|i: int| 0 <= i < mids.len() ==> middle_ok(#[trigger] mids[i]),
    ensures
        no_char(join_spaces(mids), ':'),
        no_char(join_spaces(mids), '\r'),
        no_char(join_spaces(mids), '\n'),
    decreases mids.len(),
{
    if mids.len() >= 1 {
        assert(middle_ok(mids[0]));
        if mids.len() > 1 {
            lemma_join_chars(mids.subrange(1, mids.len() as int));
        }
    }
}

/// Splitting nothing gives no middles.
proof fn lemma_split_middles_empty()
    ensures
        split_middles(Seq::<char>::empty()) == Seq::<Seq<char>>::empty(),
{
    assert(find_at(Seq::<char>::empty(), 0, ' ') == 0);
}

/// Splitting the space-joined canonical middles (with the delimiter that
/// follows them on the wire) gives the middles back.
#[verifier::rlimit(50)]
proof fn lemma_split_join(mids: Seq<Seq<char>>)
    requires
        forall|i: int| 0 <= i < mids.len() ==> middle_ok(#[trigger] mids[i]),
    ensures
        split_middles(join_spaces(mids) + seq![' ']) == mids,
    decreases mids.len(),
{
    let s = join_spaces(mids) + seq![' '];
    if mids.len() == 0 {
        assert(s =~= seq![' ']);
        assert(s[0] == ' ');
        lemma_find_at_is(s, ' ', 0);
        assert(s.subrange(1, s.len() as int) =~= Seq::<char>::empty());
        lemma_split_middles_empty();
        assert(split_middles(s) =~= mids);
    } else if mids.len() == 1 {
        let m0 = mids[0];
        assert(middle_ok(m0));
        assert(s =~= m0 + seq![' ']);
        assert(s[m0.len() as int] == ' ');
        lemma_find_at_is(s, ' ', m0.len() as int);
        assert(s.subrange(0, m0.len() as int) =~= m0);
        assert(s.subrange(m0.len() + 1 as int, s.len() as int) =~= Seq::<char>::empty());
        lemma_split_middles_empty();
        assert(split_middles(s) =~= seq![m0]);
        assert(seq![m0] =~= mids);
    } else {
        let m0 = mids[0];
        let rest = mids.subrange(1, mids.len() as int);
        assert(middle_ok(m0));
        assert(s =~= m0 + seq![' '] + (join_spaces(rest) + seq![' ']));
        assert(s[m0.len() as int] == ' ');
        lemma_find_at_is(s, ' ', m0.len() as int);
        assert(s.subrange(0, m0.len() as int) =~= m0);
        assert(s.subrange(m0.len() + 1 as int, s.len() as int) =~= join_spaces(rest) + seq![' ']);
        lemma_split_join(rest);
        assert(split_middles(s) =~= seq![m0] + rest);
        assert(seq![m0] + rest =~= mids);
    }
}

/// The parameter section parses back to the parameters.
#[verifier::rlimit(50)]
proof fn lemma_params_round_trip(params: Seq<Seq<char>>)
    requires
        params.len() >= 1,
        forall|i: int| 0 <= i < params.len() - 1 ==> middle_ok(#[trigger] params[i]),
        trailing_ok(params.last()),
    ensures
        crate::proto::parse_params(trim_spaces(seq![' '] + encode_params(params))) == params,
{
    let mids = params.subrange(0, params.len() - 1);
    let trailing = params.last();
    let join = join_spaces(mids);
    let p = encode_params(params);
    assert(p =~= join + seq![' ', ':'] + trailing);
    lemma_join_chars(mids);
    if mids.len() == 0 {
        assert(join =~= Seq::<char>::empty());
        let w = seq![' '] + p;
        assert(w =~= seq![' ', ' ', ':'] + trailing);
        lemma_trim_prefix(w, 2);
        let r5 = w.subrange(2, w.len() as int);
        assert(r5 =~= seq![':'] + trailing);
        assert(r5[0] == ':');
        lemma_find_at_is(r5, ':', 0);
        assert(r5.subrange(0, 0) =~= Seq::<char>::empty());
        lemma_split_middles_empty();
        assert(r5.subrange(1, r5.len() as int) =~= trailing);
        assert(crate::proto::parse_params(r5) =~= seq![trailing]);
        assert(seq![trailing] =~= params);
    } else {
        assert(middle_ok(mids[0]));
        assert(join[0] == mids[0][0]);
        let w = seq![' '] + p;
        assert(w[0] == ' ' && w[1] == join[0]);
        lemma_trim_prefix(w, 1);
        let r5 = w.subrange(1, w.len() as int);
        assert(r5 =~= p);
        // the first `:` stands right after the joined middles and their
        // trailing space
        assert(r5[join.len() + 1 as int] == ':');
        assert(r5[join.len() as int] == ' ');
        lemma_find_at_is(r5, ':', join.len() + 1 as int);
        assert(r5.subrange(0, join.len() + 1 as int) =~= join + seq![' ']);
        lemma_split_join(mids);
        assert(r5.subrange(join.len() + 2 as int, r5.len() as int) =~= trailing);
        assert(crate::proto::parse_params(r5) =~= mids + seq![trailing]);
        assert(mids + seq![trailing] =~= params);
    }
}

/// Parsing inverts encoding: the encoded body of a canonical message
/// parses back to exactly that message.
pub proof fn lemma_parse_inverts_encode(m: MessageView)
    requires
        canonical(m),
    ensures
        parse_line(encode_body(m)) == Ok::<MessageView, DecodeError>(m),
{
    let s = encode_body(m);
    let tagsec = encode_tags(m.tags);
    let prefsec = encode_prefix(m.prefix);
    let cmdsec = encode_command(m.command);
    let paramsec = encode_params(m.params);
    let tail = cmdsec + seq![' '] + paramsec;
    let rest = prefsec + tail;

    // the command token is a plain token that opens no other section
    match m.command {
        CommandView::Verb(v) => {
            assert(verb_ok(v));
        }
        CommandView::Reply(r) => {
            lemma_reply_code_round_trip(r);
            lemma_code_chars(r.spec_code());
        }
    }
    assert(cmdsec.len() > 0);
    assert(forall|i: int| 0 <= i < cmdsec.len() ==> token_char(#[trigger] cmdsec[i]));
    assert(cmdsec[0] != ':' && cmdsec[0] != '@');
    assert(rest[0] != ' ' && rest[0] != '@');

    // Stage A: the tag section.
    if m.tags.len() == 0 {
        assert(s =~= rest);
        assert(parse_line(s) == crate::proto::parse_rest(m.tags, rest)) by {
            assert(m.tags =~= Seq::<(Seq<char>, Seq<char>)>::empty());
        }
        lemma_after_tags(m, rest);
    } else {
        let e = encode_tag_entries(m.tags);
        assert(s =~= seq!['@'] + e + seq![' '] + rest);
        assert(s[0] == '@');
        lemma_entries_no_space(m.tags);
        assert(s[e.len() + 1 as int] == ' ');
        lemma_find_at_is(s, ' ', e.len() + 1 as int);
        let i: int = e.len() + 1 as int;
        assert(s.subrange(1, i) =~= e);
        lemma_entries_round_trip(m.tags);
        lemma_fold_round_trip(m.tags);
        let r0 = s.subrange(i, s.len() as int);
        assert(r0 =~= seq![' '] + rest);
        lemma_trim_prefix(r0, 1);
        assert(r0.subrange(1, r0.len() as int) =~= rest);
        lemma_after_tags_trimmed(m, rest);
    }
}

/// Stage B onward, for a remainder whose leading spaces are already gone.
proof fn lemma_after_tags(m: MessageView, rest: Seq<char>)
    requires
        canonical(m),
        rest == encode_prefix(m.prefix) + (encode_command(m.command) + seq![' '] + encode_params(
            m.params,
        )),
        rest.len() > 0 && rest[0] != ' ',
    ensures
        crate::proto::parse_rest(m.tags, rest) == Ok::<MessageView, DecodeError>(m),
{
    lemma_trim_prefix(rest, 0);
    lemma_stage_prefix(m, rest);
}

/// As `lemma_after_tags`, but entered with the single space that follows a
/// tag section.
proof fn lemma_after_tags_trimmed(m: MessageView, rest: Seq<char>)
    requires
        canonical(m),
        rest == encode_prefix(m.prefix) + (encode_command(m.command) + seq![' '] + encode_params(
            m.params,
        )),
        rest.len() > 0 && rest[0] != ' ',
    ensures
        crate::proto::parse_rest(m.tags, seq![' '] + rest) == Ok::<MessageView, DecodeError>(m),
{
    let r0 = seq![' '] + rest;
    lemma_trim_prefix(r0, 1);
    assert(r0.subrange(1, r0.len() as int) =~= rest);
    lemma_stage_prefix(m, rest);
}

/// Stage B: the optional prefix, then the command and parameters.
proof fn lemma_stage_prefix(m: MessageView, rest: Seq<char>)
    requires
        canonical(m),
        rest == encode_prefix(m.prefix) + (encode_command(m.command) + seq![' '] + encode_params(
            m.params,
        )),
    ensures
        trim_spaces(rest) == rest,
        crate::proto::parse_rest(m.tags, rest) == Ok::<MessageView, DecodeError>(m),
{
    let cmdsec = encode_command(m.command);
    let paramsec = encode_params(m.params);
    let tail = cmdsec + seq![' '] + paramsec;
    match m.command {
        CommandView::Verb(v) => {
            assert(verb_ok(v));
        }
        CommandView::Reply(r) => {
            lemma_reply_code_round_trip(r);
            lemma_code_chars(r.spec_code());
        }
    }
    assert(cmdsec.len() > 0);
    assert(forall|i: int| 0 <= i < cmdsec.len() ==> token_char(#[trigger] cmdsec[i]));
    assert(cmdsec[0] != ':' && cmdsec[0] != '@');
    assert(tail[0] == cmdsec[0]);
    match m.prefix {
        Some(p) => {
            assert(plain_token(p));
            assert(rest =~= seq![':'] + p + seq![' '] + tail);
            assert(rest[0] == ':');
            lemma_trim_prefix(rest, 0);
            assert(rest[p.len() + 1 as int] == ' ');
            lemma_find_at_is(rest, ' ', p.len() + 1 as int);
            let i: int = p.len() + 1 as int;
            assert(rest.subrange(1, i) =~= p);
            let r2 = rest.subrange(i, rest.len() as int);
            assert(r2 =~= seq![' '] + tail);
            lemma_trim_prefix(r2, 1);
            assert(r2.subrange(1, r2.len() as int) =~= tail);
            lemma_stage_cmd(m, tail);
        }
        None => {
            assert(rest =~= tail);
            lemma_trim_prefix(rest, 0);
            lemma_stage_cmd(m, tail);
        }
    }
}

/// Stages C and D: the command token, then the parameters.
proof fn lemma_stage_cmd(m: MessageView, tail: Seq<char>)
    requires
        canonical(m),
        tail == encode_command(m.command) + seq![' '] + encode_params(m.params),
        trim_spaces(tail) == tail,
    ensures
        crate::proto::parse_cmd(m.tags, m.prefix, tail) == Ok::<MessageView, DecodeError>(m),
{
    let cmdsec = encode_command(m.command);
    let paramsec = encode_params(m.params);
    match m.command {
        CommandView::Verb(v) => {
            assert(verb_ok(v));
        }
        CommandView::Reply(r) => {
            lemma_reply_code_round_trip(r);
            lemma_code_chars(r.spec_code());
        }
    }
    assert(cmdsec.len() > 0);
    assert(forall|i: int| 0 <= i < cmdsec.len() ==> token_char(#[trigger] cmdsec[i]));
    assert(tail[cmdsec.len() as int] == ' ');
    lemma_find_at_is(tail, ' ', cmdsec.len() as int);
    let k = cmdsec.len() as int;
    assert(tail.subrange(0, k) =~= cmdsec);
    let after = tail.subrange(k, tail.len() as int);
    assert(after =~= seq![' '] + paramsec);
    // the token classifies back to the command
    match m.command {
        CommandView::Verb(v) => {
            assert(crate::proto::classify_token(cmdsec) == Ok::<CommandView, DecodeError>(
                m.command,
            ));
        }
        CommandView::Reply(r) => {
            assert(numeric_value(cmdsec) == r.spec_code());
            assert(crate::proto::classify_token(cmdsec) == Ok::<CommandView, DecodeError>(
                m.command,
            ));
        }
    }
    lemma_params_round_trip(m.params);
}

/// For every canonical message, parsing the encoded line (terminator
/// stripped) yields the message, and re-encoding it reproduces the line:
/// parse then encode is byte-identical on well-formed lines.
pub proof fn lemma_line_round_trip(line: Seq<char>, m: MessageView)
    requires
        canonical(m),
        line == encode_body(m),
    ensures
        parse_line(line) matches Ok(m2) && encode_msg(m2) == line + crlf(),
{
    lemma_parse_inverts_encode(m);
}

/// The same round trip at the byte level: the wire bytes of a canonical
/// message parse back to it.
pub proof fn lemma_wire_round_trip(m: MessageView)
    requires
        canonical(m),
    ensures
        parse_frame(vstd::utf8::encode_utf8(encode_body(m))) == Ok::<MessageView, DecodeError>(m),
{
    let chars = encode_body(m);
    vstd::utf8::encode_utf8_valid_utf8(chars);
    vstd::utf8::encode_utf8_decode_utf8(chars);
    lemma_parse_inverts_encode(m);
}

/// UTF-8 encoding distributes over concatenation.
proof fn lemma_encode_utf8_concat(a: Seq<char>, b: Seq<char>)
    ensures
        vstd::utf8::encode_utf8(a + b) == vstd::utf8::encode_utf8(a) + vstd::utf8::encode_utf8(b),
    decreases a.len(),
{
    if a.len() == 0 {
        assert(a + b =~= b);
        assert(vstd::utf8::encode_utf8(a) + vstd::utf8::encode_utf8(b) =~= vstd::utf8::encode_utf8(
            b,
        ));
    } else {
        assert((a + b).drop_first() =~= a.drop_first() + b);
        assert((a + b)[0] == a[0]);
        lemma_encode_utf8_concat(a.drop_first(), b);
        assert(vstd::utf8::encode_scalar(a[0] as u32) + (vstd::utf8::encode_utf8(a.drop_first())
            + vstd::utf8::encode_utf8(b)) =~= vstd::utf8::encode_utf8(a) + vstd::utf8::encode_utf8(
            b,
        ));
    }
}

/// The UTF-8 bytes of text free of CR and LF hold no CR and no LF byte:
/// a one-byte encoding carries the character's own code, and every byte of
/// a longer encoding is at or above 0x80.
proof fn lemma_encode_utf8_no_crlf(s: Seq<char>)
    requires
        forall|i: int| 0 <= i < s.len() ==> #[trigger] s[i] != '\r' && s[i] != '\n',
    ensures
        forall|i: int|
            0 <= i < vstd::utf8::encode_utf8(s).len() ==> #[trigger] vstd::utf8::encode_utf8(s)[i]
                != 13 && vstd::utf8::encode_utf8(s)[i] != 10,
    decreases s.len(),
{
    if s.len() > 0 {
        let c = s[0];
        let v = c as u32;
        vstd::utf8::char_is_scalar(c);
        assert(v != 13 && v != 10) by {
            if v == 13 {
                vstd::utf8::char_u32_cast(c, 13);
                vstd::utf8::char_u32_cast('\r', '\r' as u32);
            }
            if v == 10 {
                vstd::utf8::char_u32_cast(c, 10);
                vstd::utf8::char_u32_cast('\n', '\n' as u32);
            }
        }
        let e = vstd::utf8::encode_scalar(v);
        assert(forall|i: int| 0 <= i < e.len() ==> #[trigger] e[i] != 13 && e[i] != 10) by {
            if vstd::utf8::has_width_1_encoding(v) {
                assert(((v & 0x7F) as u8) != 13 && ((v & 0x7F) as u8) != 10) by (bit_vector)
                    requires
                        v != 13 && v != 10 && v <= 0x7F,
                ;
            } else {
                assert((0xC0u8 | (((v >> 6) & 0x1F) as u8)) >= 0x80) by (bit_vector);
                assert((0xE0u8 | (((v >> 12) & 0x0F) as u8)) >= 0x80) by (bit_vector);
                assert((0xF0u8 | (((v >> 18) & 0x7) as u8)) >= 0x80) by (bit_vector);
                assert((0x80u8 | ((v & 0x3F) as u8)) >= 0x80) by (bit_vector);
                assert((0x80u8 | (((v >> 6) & 0x3F) as u8)) >= 0x80) by (bit_vector);
                assert((0x80u8 | (((v >> 12) & 0x3F) as u8)) >= 0x80) by (bit_vector);
            }
        }
        lemma_encode_utf8_no_crlf(s.drop_first());
        assert(vstd::utf8::encode_utf8(s) == e + vstd::utf8::encode_utf8(s.drop_first()));
    }
}

/// No field of a canonical message carries a line terminator.
proof fn lemma_body_no_crlf(m: MessageView)
    requires
        canonical(m),
    ensures
        forall|i: int|
            0 <= i < encode_body(m).len() ==> #[trigger] encode_body(m)[i] != '\r' && encode_body(
                m,
            )[i] != '\n',
{
    let s = encode_body(m);
    assert forall|i: int| 0 <= i < s.len() implies #[trigger] s[i] != '\r' && s[i] != '\n' by {
        lemma_body_char_sources(m, i);
    }
}

/// Each character of the encoded body comes from a tag, the prefix, the
/// command, a parameter, or a delimiter, and none of those is CR or LF.
proof fn lemma_body_char_sources(m: MessageView, i: int)
    requires
        canonical(m),
        0 <= i < encode_body(m).len(),
    ensures
        encode_body(m)[i] != '\r' && encode_body(m)[i] != '\n',
{
    let tagsec = encode_tags(m.tags);
    let prefsec = encode_prefix(m.prefix);
    let cmdsec = encode_command(m.command);
    let paramsec = encode_params(m.params);
    if m.tags.len() > 0 {
        lemma_entries_chars(m.tags);
    }
    match m.command {
        CommandView::Verb(v) => {
            assert(verb_ok(v));
        }
        CommandView::Reply(r) => {
            lemma_reply_code_round_trip(r);
            lemma_code_chars(r.spec_code());
        }
    }
    let mids = m.params.subrange(0, m.params.len() - 1);
    lemma_join_chars(mids);
    assert(trailing_ok(m.params.last()));
    assert(encode_body(m) =~= tagsec + prefsec + (cmdsec + seq![' '] + (join_spaces(mids)
        + seq![' ', ':'] + m.params.last())));
}

/// Every character of an encoded canonical entry list is a tag character,
/// `=` or `;`.
proof fn lemma_entries_chars(tags: Seq<(Seq<char>, Seq<char>)>)
    requires
        tags.len() >= 1,
        forall|i: int| 0 <= i < tags.len() ==> tag_ok(#[trigger] tags[i]),
    ensures
        forall|i: int|
            0 <= i < encode_tag_entries(tags).len() ==> #[trigger] encode_tag_entries(tags)[i]
                != '\r' && encode_tag_entries(tags)[i] != '\n' && encode_tag_entries(tags)[i]
                != ' ',
    decreases tags.len(),
{
    let e = encode_tag_entries(tags);
    let t0 = tags[0];
    assert(tag_ok(t0));
    if tags.len() == 1 {
        assert forall|i: int| 0 <= i < e.len() implies e[i] != '\r' && e[i] != '\n' && e[i]
            != ' ' by {
            assert(e == t0.0 + seq!['='] + t0.1);
            if i < t0.0.len() {
                assert(e[i] == t0.0[i]);
            } else if i == t0.0.len() {
                assert(e[i] == '=');
            } else {
                assert(e[i] == t0.1[i - t0.0.len() - 1]);
            }
        }
    } else {
        let rest = tags.subrange(1, tags.len() as int);
        lemma_entries_chars(rest);
        let e0 = encode_tag(t0);
        let erest = encode_tag_entries(rest);
        assert forall|i: int| 0 <= i < e.len() implies e[i] != '\r' && e[i] != '\n' && e[i]
            != ' ' by {
            assert(e == e0 + seq![';'] + erest);
            if i < e0.len() {
                assert(e0 == t0.0 + seq!['='] + t0.1);
                if i < t0.0.len() {
                    assert(e0[i] == t0.0[i]);
                } else if i == t0.0.len() {
                    assert(e0[i] == '=');
                } else {
                    assert(e0[i] == t0.1[i - t0.0.len() - 1]);
                }
                assert(e[i] == e0[i]);
            } else if i == e0.len() {
                assert(e[i] == ';');
            } else {
                assert(e[i] == erest[i - e0.len() - 1]);
            }
        }
    }
}

/// The codec-level round trip: in the freshly encoded wire bytes of a
/// canonical message, the first CR LF pair is exactly the terminator, the
/// frame before it parses back to the message, and nothing follows it.
/// Feeding a buffer holding exactly these bytes to the message codec
/// therefore yields the message and leaves the buffer empty.
pub proof fn lemma_codec_round_trip(m: MessageView)
    requires
        canonical(m),
    ensures
        ({
            let wire = vstd::utf8::encode_utf8(encode_msg(m));
            let body = vstd::utf8::encode_utf8(encode_body(m));
            &&& wire.len() == body.len() + 2
            &&& crate::codec::find_crlf_at(wire, 0) == body.len()
            &&& wire.subrange(0, body.len() as int) == body
            &&& parse_frame(body) == Ok::<MessageView, DecodeError>(m)
        }),
{
    let wire = vstd::utf8::encode_utf8(encode_msg(m));
    let body = vstd::utf8::encode_utf8(encode_body(m));
    lemma_encode_utf8_concat(encode_body(m), crlf());
    assert(vstd::utf8::encode_utf8(crlf()) =~= seq![13u8, 10u8]) by {
        let cr = crlf();
        let lf: Seq<char> = seq!['\n'];
        assert(cr[0] == '\r' && cr.drop_first() =~= lf);
        assert(lf[0] == '\n' && lf.drop_first() =~= Seq::<char>::empty());
        assert(('\r' as u32) == 13 && ('\n' as u32) == 10);
        assert(vstd::utf8::encode_utf8(Seq::<char>::empty()) =~= Seq::<u8>::empty());
        assert(vstd::utf8::encode_utf8(lf) == vstd::utf8::encode_scalar('\n' as u32)
            + vstd::utf8::encode_utf8(Seq::<char>::empty()));
        assert(vstd::utf8::encode_utf8(cr) == vstd::utf8::encode_scalar('\r' as u32)
            + vstd::utf8::encode_utf8(cr.drop_first()));
        assert(vstd::utf8::has_width_1_encoding(13u32) && vstd::utf8::has_width_1_encoding(10u32));
        assert(vstd::utf8::encode_scalar(13u32) == seq![vstd::utf8::leading_byte_width_1(13u32)]);
        assert(vstd::utf8::encode_scalar(10u32) == seq![vstd::utf8::leading_byte_width_1(10u32)]);
        assert(((13u32 & 0x7F) as u8) == 13) by (bit_vector);
        assert(((10u32 & 0x7F) as u8) == 10) by (bit_vector);
        assert(vstd::utf8::leading_byte_width_1(13u32) == 13);
        assert(vstd::utf8::leading_byte_width_1(10u32) == 10);
    }
    assert(wire =~= body + seq![13u8, 10u8]);
    lemma_body_no_crlf(m);
    lemma_encode_utf8_no_crlf(encode_body(m));
    assert(wire[body.len() as int] == 13 && wire[body.len() + 1 as int] == 10);
    assert(forall|j: int| 0 <= j < body.len() ==> #[trigger] wire[j] != 13);
    crate::codec::lemma_find_crlf_is(wire, body.len() as int);
    assert(wire.subrange(0, body.len() as int) =~= body);
    lemma_wire_round_trip(m);
}

} // verus!
