//! Framing of SSH agent messages on a stream: a four-byte big-endian
//! length, then that many bytes of message.

use vstd::prelude::*;
use crate::error::Error;
use crate::protocol::message::{
    lemma_message_roundtrip, spec_encode_message, spec_type_of_code, spec_type_well_formed,
    AgentMessage, MessageType,
};
use crate::protocol::wire::be32_value;

verus! {

/// The largest message body accepted (16 MiB, as OpenSSH).
pub const MAX_MESSAGE_SIZE: u32 = 16777216;

/// Reads and writes framed SSH agent messages.
pub struct AgentCodec;

/// The body length a frame header announces, when the codec accepts it:
/// not zero and at most [`MAX_MESSAGE_SIZE`].
pub open spec fn spec_frame_length(header: Seq<u8>) -> Option<int> {
    let n = be32_value(header);
    if n == 0 || n > MAX_MESSAGE_SIZE {
        None
    } else {
        Some(n)
    }
}

impl AgentCodec {
    /// The body length announced by a four-byte frame header. Fails on a
    /// zero length and on a length above [`MAX_MESSAGE_SIZE`].
    pub fn frame_length(header: &[u8]) -> (r: Result<usize, Error>)
        requires
            header@.len() == 4,
        ensures
            r is Ok <==> spec_frame_length(header@) is Some,
            r matches Ok(n) ==> spec_frame_length(header@) == Some(n as int),
            r matches Err(e) ==> (e matches Error::InvalidMessage(m) && m@ == if be32_value(header@) == 0 {
                "Zero-length message"@
            } else {
                "Message too large"@
            }),
    {
        let len = crate::protocol::wire::read_u32_be(header, 0);
        assert(header@.skip(0) =~= header@);
        if len == 0 {
            return Err(Error::InvalidMessage("Zero-length message".to_string()));
        }
        if len > MAX_MESSAGE_SIZE {
            return Err(Error::InvalidMessage("Message too large".to_string()));
        }
        Ok(len as usize)
    }

    /// Reads a message from a frame body (the bytes after the header).
    pub fn decode_body(body: &[u8]) -> (r: Result<AgentMessage, Error>)
        ensures
            r is Ok <==> body@.len() > 0,
            r matches Ok(m) ==> m.msg_type == spec_type_of_code(body@[0]) && m.payload@
                == body@.skip(1),
            r matches Err(e) ==> (e matches Error::InvalidMessage(m) && m@ == "Empty message"@),
    {
        AgentMessage::decode(body)
    }

    /// The framed bytes of a message.
    pub fn encode(msg: &AgentMessage) -> (r: Vec<u8>)
        requires
            msg.payload@.len() + 1 <= u32::MAX,
        ensures
            r@ == spec_encode_message(msg.msg_type, msg.payload@),
    {
        msg.encode()
    }
}

/// What the codec writes, it reads back: the header of an encoded message
/// announces the length of the rest, and the rest decodes to the same type
/// and payload.
pub proof fn lemma_codec_roundtrip(t: MessageType, payload: Seq<u8>)
    requires
        spec_type_well_formed(t),
        payload.len() < MAX_MESSAGE_SIZE,
    ensures
        spec_frame_length(spec_encode_message(t, payload).take(4)) == Some(
            spec_encode_message(t, payload).len() - 4,
        ),
        spec_encode_message(t, payload).skip(4).len() > 0,
        spec_type_of_code(spec_encode_message(t, payload).skip(4)[0]) == t,
        spec_encode_message(t, payload).skip(4).skip(1) == payload,
{
    lemma_message_roundtrip(t, payload);
    let e = spec_encode_message(t, payload);
    assert(be32_value(e.take(4)) == be32_value(e));
}

} // verus!
