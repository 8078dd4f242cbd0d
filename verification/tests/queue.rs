use smq_lib::enums::code::Code;
use smq_lib::enums::errors::MessageError;
use smq_lib::server::queue::{dequeue, enqueue};
use smq_lib::structs::message::Message;
use std::collections::VecDeque;

#[test]
fn pulls_come_in_the_order_of_the_pushes() {
    let mut queue = VecDeque::new();
    for id in 0..50i32 {
        assert_eq!(enqueue(&mut queue, Message::from_i32_arr(&[id])), Ok(()));
    }
    assert_eq!(queue.len(), 50);
    for id in 0..50i32 {
        let pulled = dequeue(&mut queue);
        assert_eq!(pulled.get_code(), Code::SUCCESS);
        assert_eq!(pulled.parse_data_to_i32().unwrap(), vec![id]);
    }
    assert!(queue.is_empty());
}

#[test]
fn pulling_from_an_empty_queue_gives_the_sentinel() {
    let mut queue = VecDeque::new();
    for _ in 0..3 {
        let pulled = dequeue(&mut queue);
        assert_eq!(pulled, Message::empty_message());
        assert_eq!(pulled.get_code(), Code::EMPTY_QUEUE);
        assert_eq!(pulled.get_size(), 0);
        assert!(queue.is_empty());
    }
}

#[test]
fn a_message_that_fails_validation_is_not_queued() {
    let mut queue = VecDeque::new();
    assert_eq!(enqueue(&mut queue, Message::from_u8_arr(&[1])), Ok(()));
    assert_eq!(
        enqueue(&mut queue, Message::from_str_arr(&[])),
        Err(MessageError::InvalidData)
    );
    assert_eq!(queue.len(), 1);
    assert_eq!(dequeue(&mut queue), Message::from_u8_arr(&[1]));
    assert_eq!(dequeue(&mut queue), Message::empty_message());
}

#[test]
fn interleaved_pushes_and_pulls_lose_and_repeat_nothing() {
    let mut queue = VecDeque::new();
    let mut pushed = Vec::new();
    let mut pulled = Vec::new();
    let mut next = 0u32;
    for round in 0..40u32 {
        for _ in 0..(round % 3) {
            assert_eq!(enqueue(&mut queue, Message::from_u32_arr(&[next])), Ok(()));
            pushed.push(next);
            next += 1;
        }
        for _ in 0..(round % 2 + 1) {
            let message = dequeue(&mut queue);
            if message.get_code() == Code::SUCCESS {
                pulled.extend(message.parse_data_to_u32().unwrap());
            } else {
                assert_eq!(message, Message::empty_message());
            }
        }
    }
    while !queue.is_empty() {
        pulled.extend(dequeue(&mut queue).parse_data_to_u32().unwrap());
    }
    assert_eq!(pulled, pushed);
}

#[test]
fn the_queue_takes_messages_of_every_type_side_by_side() {
    let mut queue = VecDeque::new();
    assert_eq!(enqueue(&mut queue, Message::from_str_arr(&[String::from("a")])), Ok(()));
    assert_eq!(enqueue(&mut queue, Message::from_f64_arr(&[1.25f64.to_bits()])), Ok(()));
    assert_eq!(enqueue(&mut queue, Message::from_i8_arr(&[-1])), Ok(()));
    assert_eq!(dequeue(&mut queue).parse_data_to_str().unwrap(), vec![String::from("a")]);
    assert_eq!(dequeue(&mut queue).parse_data_to_f64().unwrap(), vec![1.25f64.to_bits()]);
    assert_eq!(dequeue(&mut queue).parse_data_to_i8().unwrap(), vec![-1]);
}
