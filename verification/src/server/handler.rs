//! The handler of one connection: what it answers to a request, and which
//! step follows which.
//!
//! The handler itself touches no socket. Whoever owns the connection reads
//! and writes as the handler's actions say, and reports back what happened.

use crate::buffer::{bytes_as_slice, bytes_from_vec};
use crate::frame::{
    bare_frame, frame, lemma_frame_of_nothing, make_frame, read_head, DONE, FAILED, HEAD_LEN,
    PULL, PUSH,
};
use crate::endian::be_value;
use crate::server::queue::{after_dequeue, dequeue, dequeued, enqueue};
use crate::structs::message::{decoded, lemma_encode_decoded, Message};
use std::collections::VecDeque;
use vstd::prelude::*;

verus! {

/// Where a connection stands.
#[derive(Clone, Copy, Debug, PartialEq, Eq, Structural)]
pub enum State {
    /// Waiting for the head of the next request.
    AwaitRequest,
    /// A push was announced; waiting for its payload of `length` bytes.
    Dispatch { length: u64 },
    /// A response is on its way out.
    Respond,
    /// The connection is over.
    Closed,
}

/// What happened on the connection.
#[derive(Debug)]
pub enum Event {
    /// The nine bytes of a request's head arrived.
    Head([u8; HEAD_LEN]),
    /// The payload of a push arrived.
    Payload(Vec<u8>),
    /// The response was written out.
    Written,
    /// A read or a write failed, or the peer hung up.
    Failed,
}

/// What the owner of the connection is to do next.
#[derive(Debug, PartialEq, Eq)]
pub enum Action {
    /// Read the nine bytes of a request's head.
    ReadHead,
    /// Read a payload of this many bytes.
    ReadPayload(u64),
    /// Write these bytes to the peer.
    Write(Vec<u8>),
    /// Report that the handler is done, and close the connection.
    Close,
}

/// The response to a push of `body`: success where `body` decodes, failure
/// where it does not; no payload either way.
pub open spec fn push_response(body: Seq<u8>) -> Seq<u8> {
    if decoded(body) is Ok {
        bare_frame(DONE)
    } else {
        bare_frame(FAILED)
    }
}

/// Whether `after` is `before` with one message more at its tail, which is
/// what `body` decodes to.
pub open spec fn pushed(before: Seq<Message>, body: Seq<u8>, after: Seq<Message>) -> bool {
    &&& decoded(body) is Ok
    &&& after.len() == before.len() + 1
    &&& after.drop_last() == before
    &&& after.last()@ == decoded(body)->Ok_0
}

/// Serves a push: decodes `body` and appends the message to the queue.
/// Where `body` does not decode, the queue stays as it was and the response
/// reports failure.
pub fn handle_push(queue: &mut VecDeque<Message>, body: Vec<u8>) -> (response: Vec<u8>)
    ensures
        response@ == push_response(body@),
        decoded(body@) is Ok ==> pushed(old(queue)@, body@, final(queue)@),
        decoded(body@) is Err ==> final(queue)@ == old(queue)@,
{
    let ghost wire = body@;
    let empty: Vec<u8> = Vec::new();
    proof {
        lemma_frame_of_nothing(DONE);
        lemma_frame_of_nothing(FAILED);
        assert(empty@ =~= Seq::<u8>::empty());
    }
    let buffer = bytes_from_vec(body);
    let msg = match Message::deserialize(&buffer) {
        Ok(m) => m,
        Err(_) => {
            return make_frame(FAILED, empty.as_slice());
        },
    };
    proof {
        lemma_encode_decoded(wire);
    }
    match enqueue(queue, msg) {
        Ok(_) => {
            assert(queue@.drop_last() =~= old(queue)@);
            make_frame(DONE, empty.as_slice())
        },
        Err(_) => make_frame(FAILED, empty.as_slice()),
    }
}

/// Serves a pull: takes the head of the queue, or the sentinel from an
/// empty queue, and answers with its wire form.
pub fn handle_pull(queue: &mut VecDeque<Message>) -> (response: Vec<u8>)
    ensures
        response@ == frame(DONE, dequeued(old(queue)@).encoded()),
        final(queue)@ == after_dequeue(old(queue)@),
{
    let msg = dequeue(queue).serialize();
    make_frame(DONE, bytes_as_slice(&msg))
}

/// One step of the handler: from where the connection stands and what
/// happened on it, to where it stands next and what is to be done.
///
/// - Awaiting a request, the head of a push leads to reading its payload,
///   the head of a pull to its response, any other opcode to the end.
/// - With a push announced, its payload leads to its response.
/// - With the response written, the next request is awaited.
/// - A failure, or an event out of turn, ends the connection.
///
/// Only a pull, and a push that decodes, change the queue.
pub fn step(state: State, event: Event, queue: &mut VecDeque<Message>) -> (next: (State, Action))
    ensures
        match (state, event) {
            (State::AwaitRequest, Event::Head(head)) => {
                if head@[0] == PUSH {
                    &&& next.0 == (State::Dispatch { length: be_value(head@.subrange(1, 9)) as u64 })
                    &&& next.1 == Action::ReadPayload(be_value(head@.subrange(1, 9)) as u64)
                    &&& final(queue)@ == old(queue)@
                } else if head@[0] == PULL {
                    &&& next.0 == State::Respond
                    &&& next.1 matches Action::Write(response)
                    &&& response@ == frame(DONE, dequeued(old(queue)@).encoded())
                    &&& final(queue)@ == after_dequeue(old(queue)@)
                } else {
                    &&& next.0 == State::Closed
                    &&& next.1 == Action::Close
                    &&& final(queue)@ == old(queue)@
                }
            },
            (State::Dispatch { length }, Event::Payload(body)) => {
                if body@.len() == length {
                    &&& next.0 == State::Respond
                    &&& next.1 matches Action::Write(response)
                    &&& response@ == push_response(body@)
                    &&& if decoded(body@) is Ok {
                        pushed(old(queue)@, body@, final(queue)@)
                    } else {
                        final(queue)@ == old(queue)@
                    }
                } else {
                    &&& next.0 == State::Closed
                    &&& next.1 == Action::Close
                    &&& final(queue)@ == old(queue)@
                }
            },
            (State::Respond, Event::Written) => {
                &&& next.0 == State::AwaitRequest
                &&& next.1 == Action::ReadHead
                &&& final(queue)@ == old(queue)@
            },
            _ => {
                &&& next.0 == State::Closed
                &&& next.1 == Action::Close
                &&& final(queue)@ == old(queue)@
            },
        },
{
    match (state, event) {
        (State::AwaitRequest, Event::Head(head)) => {
            let (opcode, length) = read_head(&head);
            if opcode == PUSH {
                (State::Dispatch { length }, Action::ReadPayload(length))
            } else if opcode == PULL {
                (State::Respond, Action::Write(handle_pull(queue)))
            } else {
                (State::Closed, Action::Close)
            }
        },
        (State::Dispatch { length }, Event::Payload(body)) => {
            if body.len() as u64 == length {
                (State::Respond, Action::Write(handle_push(queue, body)))
            } else {
                (State::Closed, Action::Close)
            }
        },
        (State::Respond, Event::Written) => (State::AwaitRequest, Action::ReadHead),
        _ => (State::Closed, Action::Close),
    }
}

/// What a push brought is what the next pull hands out: on a queue that
/// was empty, the response to a pull that follows a push of `body` carries
/// `body`, byte for byte, and leaves the queue empty again.
pub proof fn lemma_pull_answers_with_pushed(
    before: Seq<Message>,
    body: Seq<u8>,
    after: Seq<Message>,
)
    requires
        before.len() == 0,
        pushed(before, body, after),
    ensures
        frame(DONE, dequeued(after).encoded()) == frame(DONE, body),
        after_dequeue(after).len() == 0,
{
    lemma_encode_decoded(body);
}

} // verus!
