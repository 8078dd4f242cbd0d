//! The queue engine: one FIFO of messages, which never blocks and never
//! turns a message away for want of room.

use crate::enums::errors::MessageError;
use crate::structs::message::{Message, MessageView};
use std::collections::VecDeque;
use vstd::prelude::*;

verus! {

/// The queue after `message` was handed to it: at the tail if it passes
/// validation, and else not at all.
pub open spec fn after_enqueue(queue: Seq<Message>, message: Message) -> Seq<Message> {
    if message@.valid() {
        queue.push(message)
    } else {
        queue
    }
}

/// What a pull gets from the queue: the message at the head, or the
/// sentinel when there is none.
pub open spec fn dequeued(queue: Seq<Message>) -> MessageView {
    if queue.len() == 0 {
        MessageView::sentinel()
    } else {
        queue[0]@
    }
}

/// The queue after a pull: without its head.
pub open spec fn after_dequeue(queue: Seq<Message>) -> Seq<Message> {
    if queue.len() == 0 {
        queue
    } else {
        queue.drop_first()
    }
}

/// Validates `message` and appends it to the tail of `queue`. A message that
/// fails validation is turned away with its error and the queue stays as it
/// was.
pub fn enqueue(queue: &mut VecDeque<Message>, message: Message) -> (queued: Result<
    (),
    MessageError,
>)
    ensures
        queued == message@.check(),
        final(queue)@ == after_enqueue(old(queue)@, message),
{
    match message.validate() {
        Err(e) => Err(e),
        Ok(_) => {
            queue.push_back(message);
            Ok(())
        },
    }
}

/// Removes and returns the head of `queue`; from an empty queue, returns
/// the sentinel.
pub fn dequeue(queue: &mut VecDeque<Message>) -> (message: Message)
    ensures
        message@ == dequeued(old(queue)@),
        old(queue)@.len() > 0 ==> message == old(queue)@[0],
        final(queue)@ == after_dequeue(old(queue)@),
{
    match queue.pop_front() {
        Some(message) => message,
        None => Message::empty_message(),
    }
}

/// One operation on the queue, as the lock hands them to the engine one at
/// a time.
pub ghost enum Operation {
    Push(Message),
    Pull,
}

/// The messages that the pushes among `operations` brought and that passed
/// validation, in order.
pub open spec fn accepted(operations: Seq<Operation>) -> Seq<Message>
    decreases operations.len(),
{
    if operations.len() == 0 {
        Seq::empty()
    } else {
        match operations.last() {
            Operation::Push(message) => after_enqueue(accepted(operations.drop_last()), message),
            Operation::Pull => accepted(operations.drop_last()),
        }
    }
}

/// The queue after `operations` ran on `queue`, one after the other.
pub open spec fn queue_after(queue: Seq<Message>, operations: Seq<Operation>) -> Seq<Message>
    decreases operations.len(),
{
    if operations.len() == 0 {
        queue
    } else {
        let before = queue_after(queue, operations.drop_last());
        match operations.last() {
            Operation::Push(message) => after_enqueue(before, message),
            Operation::Pull => after_dequeue(before),
        }
    }
}

/// The messages that the pulls among `operations` took from the queue, in
/// order. A pull that found the queue empty got the sentinel and took
/// nothing.
pub open spec fn delivered(queue: Seq<Message>, operations: Seq<Operation>) -> Seq<Message>
    decreases operations.len(),
{
    if operations.len() == 0 {
        Seq::empty()
    } else {
        let earlier = delivered(queue, operations.drop_last());
        let before = queue_after(queue, operations.drop_last());
        match operations.last() {
            Operation::Push(_) => earlier,
            Operation::Pull => if before.len() == 0 {
                earlier
            } else {
                earlier.push(before[0])
            },
        }
    }
}

/// Nothing is lost and nothing is delivered twice: in whatever order pushes
/// and pulls reach the queue, what was delivered, followed by what still
/// waits, is what the queue held and then accepted, in that order.
pub proof fn lemma_delivery_is_fifo(queue: Seq<Message>, operations: Seq<Operation>)
    ensures
        delivered(queue, operations) + queue_after(queue, operations) == queue + accepted(
            operations,
        ),
    decreases operations.len(),
{
    if operations.len() == 0 {
        assert(delivered(queue, operations) + queue_after(queue, operations) =~= queue + accepted(
            operations,
        ));
    } else {
        let earlier = operations.drop_last();
        lemma_delivery_is_fifo(queue, earlier);
        let before = queue_after(queue, earlier);
        assert(delivered(queue, earlier) + before == queue + accepted(earlier));
        match operations.last() {
            Operation::Push(message) => {
                if message@.valid() {
                    assert(delivered(queue, operations) + queue_after(queue, operations)
                        =~= (delivered(queue, earlier) + before).push(message));
                    assert(queue + accepted(operations) =~= (queue + accepted(earlier)).push(
                        message,
                    ));
                }
            },
            Operation::Pull => {
                if before.len() > 0 {
                    assert(delivered(queue, operations) + queue_after(queue, operations)
                        =~= delivered(queue, earlier) + before);
                }
            },
        }
    }
}

/// Every delivered message was in the queue or accepted by it, and none more
/// often than it was: the delivered messages are a sub-multiset of those.
pub proof fn lemma_delivered_were_accepted(queue: Seq<Message>, operations: Seq<Operation>)
    ensures
        delivered(queue, operations).to_multiset().subset_of(
            (queue + accepted(operations)).to_multiset(),
        ),
{
    lemma_delivery_is_fifo(queue, operations);
    vstd::seq_lib::lemma_multiset_commutative(
        delivered(queue, operations),
        queue_after(queue, operations),
    );
}

/// The operations that push each of `messages`, in order.
pub open spec fn pushes(messages: Seq<Message>) -> Seq<Operation> {
    Seq::new(messages.len(), |i: int| Operation::Push(messages[i]))
}

/// As many pulls as `count`.
pub open spec fn pulls(count: nat) -> Seq<Operation> {
    Seq::new(count, |i: int| Operation::Pull)
}

/// First in, first out: after N pushes of messages that pass validation, N
/// pulls on the queue that was empty before deliver those messages in the
/// order of the pushes, and leave the queue empty.
pub proof fn lemma_pushes_then_pulls(messages: Seq<Message>)
    requires
        forall|i: int| 0 <= i < messages.len() ==> (#[trigger] messages[i])@.valid(),
    ensures
        delivered(Seq::empty(), pushes(messages) + pulls(messages.len())) == messages,
        queue_after(Seq::empty(), pushes(messages) + pulls(messages.len())).len() == 0,
{
    let operations = pushes(messages) + pulls(messages.len());
    lemma_after_pushes(messages);
    lemma_pulls_shorten(pushes(messages), messages.len());
    lemma_accepted_ignores_pulls(pushes(messages), messages.len());
    lemma_delivery_is_fifo(Seq::empty(), operations);
    assert(Seq::<Message>::empty() + accepted(operations) =~= messages);
    let rest = queue_after(Seq::empty(), operations);
    assert(rest =~= Seq::<Message>::empty());
    assert(delivered(Seq::empty(), operations) + rest =~= delivered(Seq::empty(), operations));
}

/// Pushes of messages that pass validation are all accepted, and the queue
/// that was empty before holds exactly them.
proof fn lemma_after_pushes(messages: Seq<Message>)
    requires
        forall|i: int| 0 <= i < messages.len() ==> (#[trigger] messages[i])@.valid(),
    ensures
        accepted(pushes(messages)) == messages,
        queue_after(Seq::empty(), pushes(messages)) == messages,
    decreases messages.len(),
{
    if messages.len() == 0 {
        assert(accepted(pushes(messages)) =~= messages);
        assert(queue_after(Seq::empty(), pushes(messages)) =~= messages);
    } else {
        let front = messages.drop_last();
        lemma_after_pushes(front);
        assert(pushes(messages).drop_last() =~= pushes(front));
        assert(pushes(messages).last() == Operation::Push(messages.last()));
        assert(front.push(messages.last()) =~= messages);
    }
}

/// Each pull shortens a queue that is not empty by one.
proof fn lemma_pulls_shorten(before: Seq<Operation>, count: nat)
    ensures
        queue_after(Seq::empty(), before + pulls(count)).len() == if queue_after(
            Seq::empty(),
            before,
        ).len() >= count {
            queue_after(Seq::empty(), before).len() - count
        } else {
            0
        },
    decreases count,
{
    if count == 0 {
        assert(before + pulls(0) =~= before);
    } else {
        let fewer = (count - 1) as nat;
        lemma_pulls_shorten(before, fewer);
        assert((before + pulls(count)).drop_last() =~= before + pulls(fewer));
        assert((before + pulls(count)).last() == Operation::Pull);
    }
}

/// Pulls accept nothing.
proof fn lemma_accepted_ignores_pulls(before: Seq<Operation>, count: nat)
    ensures
        accepted(before + pulls(count)) == accepted(before),
    decreases count,
{
    if count == 0 {
        assert(before + pulls(0) =~= before);
    } else {
        let fewer = (count - 1) as nat;
        lemma_accepted_ignores_pulls(before, fewer);
        assert((before + pulls(count)).drop_last() =~= before + pulls(fewer));
        assert((before + pulls(count)).last() == Operation::Pull);
    }
}

} // verus!
