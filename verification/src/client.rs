//! The protocol as a client speaks it: the requests it sends and what it
//! makes of the responses.

use crate::buffer::{bytes_as_slice, bytes_from_vec};
use crate::endian::be_value;
use crate::enums::errors::{ClientError, MessageError};
use crate::frame::{
    bare_frame, frame, lemma_frame_of_nothing, make_frame, read_head, DONE, HEAD_LEN, PULL, PUSH,
};
use crate::structs::message::{decoded, Message, MessageView};
use vstd::prelude::*;

verus! {

/// The request that pushes `message`.
pub fn push_request(message: &Message) -> (request: Vec<u8>)
    ensures
        request@ == frame(PUSH, message@.encoded()),
{
    let msg = message.serialize();
    make_frame(PUSH, bytes_as_slice(&msg))
}

/// Whether the first byte of the response to a push says that the server
/// took the message.
pub fn push_accepted(status: u8) -> (accepted: bool)
    ensures
        accepted == (status == DONE),
{
    status == DONE
}

/// The request that pulls a message.
pub fn pull_request() -> (request: Vec<u8>)
    ensures
        request@ == bare_frame(PULL),
{
    let empty: Vec<u8> = Vec::new();
    proof {
        lemma_frame_of_nothing(PULL);
        assert(empty@ =~= Seq::<u8>::empty());
    }
    make_frame(PULL, empty.as_slice())
}

/// Reads the head of the response to a pull: the length of the payload
/// that follows, or the server's refusal.
pub fn pull_response_length(head: &[u8; HEAD_LEN]) -> (length: Result<u64, ClientError>)
    ensures
        head@[0] == DONE ==> (length matches Ok(n) && n == be_value(head@.subrange(1, 9))),
        head@[0] != DONE ==> (length matches Err(ClientError::ServerError(reason)) && reason@
            == "Server can't send data"@),
{
    let (status, size) = read_head(head);
    if status != DONE {
        return Err(ClientError::ServerError("Server can't send data".to_string()));
    }
    Ok(size)
}

/// Decodes the payload of the response to a pull.
pub fn pull_response(body: Vec<u8>) -> (pulled: Result<Message, ClientError>)
    ensures
        match pulled {
            Ok(message) => decoded(body@) == Ok::<MessageView, MessageError>(message@),
            Err(e) => (e matches ClientError::MessageError(cause) && decoded(body@) == Err::<
                MessageView,
                MessageError,
            >(cause)),
        },
{
    let buffer = bytes_from_vec(body);
    match Message::deserialize(&buffer) {
        Ok(msg) => Ok(msg),
        Err(e) => Err(ClientError::MessageError(e)),
    }
}

} // verus!
