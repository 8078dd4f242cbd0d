//! The envelope of a request or a response on a connection: one tag byte,
//! the payload's length in eight big-endian bytes, then the payload.

use crate::buffer::append_bytes;
use crate::endian::{be_bytes, be_value, read_be, write_be};
use vstd::prelude::*;

verus! {

/// The opcode of a push request.
pub const PUSH: u8 = 0;

/// The opcode of a pull request.
pub const PULL: u8 = 1;

/// The status of a response that reports success.
pub const DONE: u8 = 0;

/// The status of a response that reports failure.
pub const FAILED: u8 = 1;

/// The number of bytes before the payload: the tag and the length.
pub const HEAD_LEN: usize = 9;

/// The frame that carries `payload` under the tag `tag`.
pub open spec fn frame(tag: u8, payload: Seq<u8>) -> Seq<u8> {
    seq![tag] + be_bytes(payload.len(), 8) + payload
}

/// The frame without a payload: the tag and eight zero bytes.
pub open spec fn bare_frame(tag: u8) -> Seq<u8> {
    seq![tag, 0u8, 0u8, 0u8, 0u8, 0u8, 0u8, 0u8, 0u8]
}

/// A frame without a payload is the tag and eight zero bytes.
pub proof fn lemma_frame_of_nothing(tag: u8)
    ensures
        frame(tag, Seq::empty()) == bare_frame(tag),
{
    reveal_with_fuel(be_bytes, 9);
    assert(frame(tag, Seq::empty()) =~= bare_frame(tag));
}

/// Builds the frame that carries `payload` under the tag `tag`.
pub fn make_frame(tag: u8, payload: &[u8]) -> (framed: Vec<u8>)
    ensures
        framed@ == frame(tag, payload@),
{
    let mut framed: Vec<u8> = Vec::new();
    framed.push(tag);
    write_be(&mut framed, payload.len() as u64, 8);
    append_bytes(&mut framed, payload);
    framed
}

/// Reads the head of a frame: the tag, and the length that the frame
/// declares for its payload.
pub fn read_head(head: &[u8; HEAD_LEN]) -> (parts: (u8, u64))
    ensures
        parts.0 == head@[0],
        parts.1 == be_value(head@.subrange(1, 9)),
{
    (head[0], read_be(head.as_slice(), 1, 8))
}

} // verus!
