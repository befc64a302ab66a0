//! A verified core for an IRC client: line framing, message parsing and
//! encoding, numeric-reply classification, keepalive handling, and the
//! registration handshake.

use vstd::prelude::*;

pub mod bytebuf;
pub mod commands;
pub mod codec;
pub mod encode;
pub mod laws;
pub mod parse;
pub mod proto;
pub mod reply;
pub mod session;
pub mod text;

verus! {

/// Why a frame could not be decoded into a `Message`.
///
/// Decode failures are per-frame and recoverable: the caller drops or
/// reports the offending frame and keeps reading the stream.
#[derive(Clone, Copy, Debug, PartialEq, Eq, Structural)]
pub enum DecodeError {
    /// The frame's bytes are not valid UTF-8.
    InvalidUtf8,
    /// A tag section was opened with `@` but no space ends it.
    MalformedTags,
    /// A prefix was opened with `:` but no space ends it.
    MalformedPrefix,
    /// A three-digit command matched none of the reply families;
    /// the unclassifiable code is carried along.
    UnknownReplyCode(u16),
}

impl DecodeError {
    /// A short description of the failure, for reporting a dropped frame.
    pub fn describe(&self) -> String {
        match self {
            DecodeError::InvalidUtf8 => "frame is not valid UTF-8".to_owned(),
            DecodeError::MalformedTags => "tag section has no ending space".to_owned(),
            DecodeError::MalformedPrefix => "prefix has no ending space".to_owned(),
            DecodeError::UnknownReplyCode(_) => "numeric reply code matches no family".to_owned(),
        }
    }
}

} // verus!
