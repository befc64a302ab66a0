//! The two framing codecs: CR LF line delimiting over a raw byte buffer,
//! and message decoding/encoding over a socket buffer.
//!
//! Both work on a `bytes::BytesMut` accumulation buffer, through the
//! trusted interface in `bytebuf`.

use crate::bytebuf::{
    buf_bytes, buf_clear, buf_extend, buf_get, buf_len, buf_set, buf_push, buf_split_all,
    buf_split_to, buf_to_vec,
};
use crate::proto::{encode_msg, parse_frame, wf_message, Message, MessageView};
use crate::DecodeError;
use vstd::prelude::*;

verus! {

/// Splits incoming data into lines delimited by CR LF.
///
/// The whole accumulated buffer is treated as one frame once it ends in a
/// line feed; a lone line feed terminator is normalized to CR LF.
#[derive(Copy, Clone, Debug, Eq, PartialEq, Ord, PartialOrd, Hash, Default)]
pub struct CrLfDelimitedCodec(());

/// `s` with its line-feed ending normalized to the canonical CR LF
/// terminator.
pub open spec fn normalize_line(s: Seq<u8>) -> Seq<u8> {
    if s.len() >= 2 && s[s.len() - 2] == 13 {
        s
    } else {
        s.subrange(0, s.len() - 1) + seq![13u8, 10u8]
    }
}

impl CrLfDelimitedCodec {
    pub fn new() -> (r: Self) {
        CrLfDelimitedCodec(())
    }

    /// One framing step over the accumulated buffer.
    ///
    /// If the buffer ends with a line feed, the terminator is normalized to
    /// CR LF and the entire contents are emitted as one frame, clearing the
    /// buffer. Otherwise nothing is emitted and every byte is retained for
    /// more input.
    pub fn decode(&mut self, src: &mut bytes::BytesMut) -> (r: Option<bytes::BytesMut>)
        ensures
            (buf_bytes(*old(src)).len() == 0 || buf_bytes(*old(src)).last() != 10) ==> (r is None
                && buf_bytes(*final(src)) == buf_bytes(*old(src))),
            (buf_bytes(*old(src)).len() > 0 && buf_bytes(*old(src)).last() == 10) ==> (match r {
                Some(f) => buf_bytes(f) == normalize_line(buf_bytes(*old(src))) && buf_bytes(
                    *final(src),
                ).len() == 0,
                None => false,
            }),
    {
        let n = buf_len(src);
        if n == 0 {
            return None;
        }
        let last = buf_get(src, n - 1);
        if last != 10 {
            return None;
        }
        if n >= 2 && buf_get(src, n - 2) == 13 {
            Some(buf_split_all(src))
        } else {
            buf_set(src, n - 1, 13);
            buf_push(src, 10);
            proof {
                assert(buf_bytes(*src) =~= normalize_line(buf_bytes(*old(src))));
            }
            Some(buf_split_all(src))
        }
    }
}

/// Decodes complete CR LF-terminated lines from a socket buffer into
/// messages, and encodes messages back into wire bytes.
#[derive(Copy, Clone, Debug, Eq, PartialEq, Ord, PartialOrd, Hash, Default)]
pub struct ServerMessageCodec(());

/// Index of the first CR LF pair at or after `from`, or `s.len()` if there
/// is none.
pub open spec fn find_crlf_at(s: Seq<u8>, from: int) -> int
    decreases s.len() - from,
{
    if from < 0 {
        find_crlf_at(s, 0)
    } else if from + 1 >= s.len() {
        s.len() as int
    } else if s[from] == 13 && s[from + 1] == 10 {
        from
    } else {
        find_crlf_at(s, from + 1)
    }
}

/// What `find_crlf_at` returns: an in-bounds position carrying CR LF, with
/// no pair before it.
pub proof fn lemma_find_crlf(s: Seq<u8>, from: int)
    requires
        0 <= from <= s.len(),
    ensures
        from <= find_crlf_at(s, from) <= s.len(),
        find_crlf_at(s, from) + 1 < s.len() ==> s[find_crlf_at(s, from)] == 13 && s[find_crlf_at(
            s,
            from,
        ) + 1] == 10,
        find_crlf_at(s, from) < s.len() ==> find_crlf_at(s, from) + 1 < s.len(),
        forall|j: int|
            from <= j < find_crlf_at(s, from) && j + 1 < s.len() ==> !(#[trigger] s[j] == 13 && s[j
                + 1] == 10),
    decreases s.len() - from,
{
    if from + 1 < s.len() && !(s[from] == 13 && s[from + 1] == 10) {
        lemma_find_crlf(s, from + 1);
    }
}

/// `find_crlf_at` lands exactly on `k` when `k` holds the first CR LF pair
/// and no CR stands before it.
pub proof fn lemma_find_crlf_is(s: Seq<u8>, k: int)
    requires
        0 <= k,
        k + 1 < s.len(),
        s[k] == 13,
        s[k + 1] == 10,
        forall|j: int| 0 <= j < k ==> s[j] != 13,
    ensures
        find_crlf_at(s, 0) == k,
{
    lemma_find_crlf_is_from(s, 0, k);
}

pub proof fn lemma_find_crlf_is_from(s: Seq<u8>, from: int, k: int)
    requires
        0 <= from <= k,
        k + 1 < s.len(),
        s[k] == 13,
        s[k + 1] == 10,
        forall|j: int| from <= j < k ==> s[j] != 13,
    ensures
        find_crlf_at(s, from) == k,
    decreases k - from,
{
    if from < k {
        lemma_find_crlf_is_from(s, from + 1, k);
    }
}

/// The result of one decode step agrees with the specified parse of the
/// frame.
pub open spec fn frame_decode_matches(
    r: Result<Option<Message>, DecodeError>,
    v: Result<MessageView, DecodeError>,
) -> bool {
    match (r, v) {
        (Ok(Some(m)), Ok(mv)) => m@ == mv,
        (Err(e), Err(ev)) => e == ev,
        _ => false,
    }
}

impl ServerMessageCodec {
    pub fn new() -> (r: Self) {
        ServerMessageCodec(())
    }

    /// Decode one message from the buffer.
    ///
    /// With no complete CR LF terminator in the buffer nothing is consumed
    /// and no message is produced yet. Otherwise the first frame is removed
    /// from the buffer and parsed; a malformed frame yields its typed
    /// error, still consuming the frame, so one bad line never ends the
    /// stream.
    pub fn decode(&mut self, src: &mut bytes::BytesMut) -> (r: Result<Option<Message>, DecodeError>)
        ensures
            find_crlf_at(buf_bytes(*old(src)), 0) == buf_bytes(*old(src)).len() ==> (r == Ok::<
                Option<Message>,
                DecodeError,
            >(None) && buf_bytes(*final(src)) == buf_bytes(*old(src))),
            find_crlf_at(buf_bytes(*old(src)), 0) < buf_bytes(*old(src)).len() ==> {
                let i = find_crlf_at(buf_bytes(*old(src)), 0);
                &&& buf_bytes(*final(src)) == buf_bytes(*old(src)).subrange(
                    i + 2,
                    buf_bytes(*old(src)).len() as int,
                )
                &&& frame_decode_matches(r, parse_frame(buf_bytes(*old(src)).subrange(0, i)))
            },
            r matches Ok(Some(m)) ==> wf_message(m@),
    {
        let ghost s = buf_bytes(*src);
        proof {
            lemma_find_crlf(s, 0);
        }
        let n = buf_len(src);
        if n < 2 {
            return Ok(None);
        }
        let mut i: usize = 0;
        while i < n - 1 && !(buf_get(src, i) == 13 && buf_get(src, i + 1) == 10)
            invariant
                2 <= n,
                0 <= i < n,
                n == s.len(),
                s == buf_bytes(*src),
                find_crlf_at(s, 0) == find_crlf_at(s, i as int),
            decreases n - i,
        {
            i += 1;
        }
        if i + 1 >= n {
            proof {
                assert(find_crlf_at(s, i as int) == s.len());
            }
            return Ok(None);
        }
        proof {
            assert(find_crlf_at(s, i as int) == i as int);
        }
        let frame = buf_split_to(src, i + 2);
        let mut line = buf_to_vec(&frame);
        line.truncate(i);
        proof {
            assert(line@ =~= s.subrange(0, i as int));
        }
        match Message::parse_bytes(line) {
            Ok(m) => Ok(Some(m)),
            Err(e) => Err(e),
        }
    }

    /// Encode a message into the buffer, replacing its contents with the
    /// message's wire bytes.
    pub fn encode(&mut self, item: Message, dst: &mut bytes::BytesMut)
        ensures
            buf_bytes(*final(dst)) == vstd::utf8::encode_utf8(encode_msg(item@)),
    {
        let bytes = item.encode();
        buf_clear(dst);
        buf_extend(dst, &bytes);
        proof {
            assert(Seq::<u8>::empty() + bytes@ =~= bytes@);
        }
    }
}

} // verus!
