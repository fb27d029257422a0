//! The gossip payload and its binary form.
//!
//! A payload is one tag byte, the depth as eight little-endian bytes and, for
//! a block, the block's own encoding up to the end of the payload. The block's
//! encoding is opaque here.

use vstd::prelude::*;
use vstd::bytes::{
    lemma_auto_spec_u64_to_from_le_bytes, spec_u64_from_le_bytes, spec_u64_to_le_bytes,
    u64_from_le_bytes, u64_to_le_bytes,
};
use vstd::slice::slice_subrange;

verus! {

/// Tag byte of a depth announcement.
pub const TAG_DEPTH: u8 = 0;

/// Tag byte of a full block.
pub const TAG_BLOCK: u8 = 1;

/// Length of the tag and the depth that every payload starts with.
pub const HEAD_LEN: usize = 9;

/// What peers tell each other.
#[derive(Clone, Debug, PartialEq, Eq)]
pub enum Message {
    /// The sender's best depth.
    Depth { depth: u64 },
    /// A candidate block at `depth`, in the block codec's encoding.
    Block { depth: u64, block: Vec<u8> },
}

/// The mathematical value of a `Message`.
pub ghost enum MessageView {
    Depth { depth: u64 },
    Block { depth: u64, block: Seq<u8> },
}

impl View for Message {
    type V = MessageView;

    open spec fn view(&self) -> MessageView {
        match *self {
            Message::Depth { depth } => MessageView::Depth { depth },
            Message::Block { depth, block } => MessageView::Block { depth, block: block@ },
        }
    }
}

/// Why a payload is not a message.
#[derive(Clone, Copy, Debug, PartialEq, Eq, Structural)]
pub enum DecodeError {
    /// The payload has no bytes.
    Empty,
    /// The first byte is not a known tag.
    UnknownTag(u8),
    /// The payload ends before the depth does.
    Truncated,
    /// A depth announcement is followed by further bytes.
    TrailingBytes,
}

/// The payload that stands for `message`.
pub open spec fn encode_spec(message: MessageView) -> Seq<u8> {
    match message {
        MessageView::Depth { depth } => seq![TAG_DEPTH] + spec_u64_to_le_bytes(depth),
        MessageView::Block { depth, block } => seq![TAG_BLOCK] + spec_u64_to_le_bytes(depth)
            + block,
    }
}

/// The message that `data` stands for, or why it stands for none.
pub open spec fn decode_spec(data: Seq<u8>) -> Result<MessageView, DecodeError> {
    if data.len() == 0 {
        Err(DecodeError::Empty)
    } else if data[0] != TAG_DEPTH && data[0] != TAG_BLOCK {
        Err(DecodeError::UnknownTag(data[0]))
    } else if data.len() < HEAD_LEN {
        Err(DecodeError::Truncated)
    } else if data[0] == TAG_DEPTH {
        if data.len() != HEAD_LEN {
            Err(DecodeError::TrailingBytes)
        } else {
            Ok(MessageView::Depth { depth: spec_u64_from_le_bytes(data.subrange(1, 9)) })
        }
    } else {
        Ok(
            MessageView::Block {
                depth: spec_u64_from_le_bytes(data.subrange(1, 9)),
                block: data.subrange(9, data.len() as int),
            },
        )
    }
}

/// Decoding an encoded message gives the message back.
pub proof fn lemma_decode_inverts_encode(message: MessageView)
    ensures
        decode_spec(encode_spec(message)) == Ok::<MessageView, DecodeError>(message),
{
    lemma_auto_spec_u64_to_from_le_bytes();
    let data = encode_spec(message);
    match message {
        MessageView::Depth { depth } => {
            assert(data.subrange(1, 9) =~= spec_u64_to_le_bytes(depth));
        },
        MessageView::Block { depth, block } => {
            assert(data.subrange(1, 9) =~= spec_u64_to_le_bytes(depth));
            assert(data.subrange(9, data.len() as int) =~= block);
        },
    }
}

/// Every payload that decodes is the encoding of what it decodes to: no two
/// payloads stand for the same message.
pub proof fn lemma_encode_inverts_decode(data: Seq<u8>)
    requires
        decode_spec(data) is Ok,
    ensures
        encode_spec(decode_spec(data)->Ok_0) == data,
{
    lemma_auto_spec_u64_to_from_le_bytes();
    let head = data.subrange(1, 9);
    assert(spec_u64_to_le_bytes(spec_u64_from_le_bytes(head)) == head);
    assert(encode_spec(decode_spec(data)->Ok_0) =~= data);
}

/// Appends the bytes of `source` to `out`.
fn append_bytes(out: &mut Vec<u8>, source: &[u8])
    ensures
        final(out)@ == old(out)@ + source@,
{
    let mut i: usize = 0;
    while i < source.len()
        invariant
            i <= source@.len(),
            out@ == old(out)@ + source@.subrange(0, i as int),
        decreases source@.len() - i,
    {
        out.push(source[i]);
        i += 1;
        assert(out@ =~= old(out)@ + source@.subrange(0, i as int));
    }
    assert(source@.subrange(0, i as int) =~= source@);
}

impl Message {
    /// The depth that the message speaks of.
    pub fn depth(&self) -> (depth: u64)
        ensures
            depth == match self@ {
                MessageView::Depth { depth } => depth,
                MessageView::Block { depth, .. } => depth,
            },
    {
        match self {
            Message::Depth { depth } => *depth,
            Message::Block { depth, .. } => *depth,
        }
    }

    /// The binary form of the message. Every message has one.
    pub fn encode(&self) -> (data: Vec<u8>)
        ensures
            data@ == encode_spec(self@),
            decode_spec(data@) == Ok::<MessageView, DecodeError>(self@),
    {
        let mut data: Vec<u8> = Vec::new();
        match self {
            Message::Depth { depth } => {
                data.push(TAG_DEPTH);
                let digits = u64_to_le_bytes(*depth);
                append_bytes(&mut data, digits.as_slice());
                assert(data@ =~= encode_spec(self@));
            },
            Message::Block { depth, block } => {
                data.push(TAG_BLOCK);
                let digits = u64_to_le_bytes(*depth);
                append_bytes(&mut data, digits.as_slice());
                append_bytes(&mut data, block.as_slice());
                assert(data@ =~= encode_spec(self@));
            },
        }
        proof {
            lemma_decode_inverts_encode(self@);
        }
        data
    }

    /// Reads a payload. A payload that is no message is refused with the
    /// reason; nothing else happens.
    pub fn decode(data: &[u8]) -> (out: Result<Message, DecodeError>)
        ensures
            match decode_spec(data@) {
                Ok(message) => out matches Ok(decoded) && decoded@ == message,
                Err(reason) => out == Err::<Message, DecodeError>(reason),
            },
    {
        if data.len() == 0 {
            return Err(DecodeError::Empty);
        }
        let tag: u8 = data[0];
        if tag != TAG_DEPTH && tag != TAG_BLOCK {
            return Err(DecodeError::UnknownTag(tag));
        }
        if data.len() < HEAD_LEN {
            return Err(DecodeError::Truncated);
        }
        let depth: u64 = u64_from_le_bytes(slice_subrange(data, 1, 9));
        if tag == TAG_DEPTH {
            if data.len() != HEAD_LEN {
                return Err(DecodeError::TrailingBytes);
            }
            Ok(Message::Depth { depth })
        } else {
            let mut block: Vec<u8> = Vec::new();
            append_bytes(&mut block, slice_subrange(data, 9, data.len()));
            assert(block@ =~= data@.subrange(9, data@.len() as int));
            Ok(Message::Block { depth, block })
        }
    }
}

} // verus!
