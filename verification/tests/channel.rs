use bank_system::priority_async_channel::accept_send;
use bank_system::priority_async_channel::async_channel;
use bank_system::priority_async_channel::dequeue;
use bank_system::priority_async_channel::enqueue;
use bank_system::priority_async_channel::must_wait;
use bank_system::priority_async_channel::ChannelError;
use std::collections::VecDeque;

#[test]
fn channel_should_works() {
    let (mut s, mut r) = async_channel();
    s.send(1, false).unwrap();

    let msg = r.recv().unwrap();
    assert_eq!(1, msg);
}

#[test]
fn receiver_drop_should_error_when_send() {
    let (mut s, _) = async_channel();
    let mut s1 = s.clone();

    assert!(s.send(0, false).is_err());
    assert!(s1.send(1, false).is_err());
}

#[test]
fn refused_send_queues_nothing() {
    let (mut s, r) = async_channel();
    s.send(1, false).unwrap();
    drop(r);
    assert_eq!(s.get_receivers_num(), 0);
    assert_eq!(s.send(2, false), Err(ChannelError::NoReceiver));
    assert_eq!(s.send(3, true), Err(ChannelError::NoReceiver));
    assert_eq!(s.get_queued_items(), 1);
}

#[test]
fn urgent_items_overtake_and_normal_items_queue() {
    let (mut s, mut r) = async_channel();
    s.send("A", false).unwrap();
    s.send("B", true).unwrap();
    s.send("C", true).unwrap();
    s.send("D", false).unwrap();
    assert_eq!(s.get_queued_items(), 4);
    assert_eq!(r.recv(), Ok("C"));
    assert_eq!(r.recv(), Ok("B"));
    assert_eq!(r.recv(), Ok("A"));
    assert_eq!(r.recv(), Ok("D"));
    assert_eq!(s.get_queued_items(), 0);
}

#[test]
fn urgent_item_overtakes_what_is_left_after_a_receive() {
    let (mut s, mut r) = async_channel();
    s.send(1, false).unwrap();
    s.send(2, false).unwrap();
    assert_eq!(r.recv(), Ok(1));
    s.send(3, true).unwrap();
    s.send(4, false).unwrap();
    assert_eq!(r.recv(), Ok(3));
    assert_eq!(r.recv(), Ok(2));
    assert_eq!(r.recv(), Ok(4));
}

#[test]
fn recv_fails_once_the_queue_is_dry() {
    let (mut s, mut r) = async_channel();
    s.send(7, false).unwrap();
    drop(s);
    assert_eq!(r.get_senders_num(), 0);
    assert_eq!(r.recv(), Ok(7));
    assert_eq!(r.recv(), Err(ChannelError::NoSender));
    assert_eq!(r.recv(), Err(ChannelError::NoSender));
}

#[test]
fn next_ends_with_the_last_sender() {
    let (mut s, mut r) = async_channel();
    s.send(1, false).unwrap();
    s.send(2, false).unwrap();
    drop(s);
    assert_eq!(r.next(), Some(1));
    assert_eq!(r.next(), Some(2));
    assert_eq!(r.next(), None);
}

#[test]
fn a_cloned_sender_is_counted_and_reaches_the_same_queue() {
    let (mut s, mut r) = async_channel();
    assert_eq!(r.get_senders_num(), 1);
    assert_eq!(s.get_receivers_num(), 1);
    let mut s1 = s.clone();
    assert_eq!(r.get_senders_num(), 2);
    s1.send(10, false).unwrap();
    s.send(11, false).unwrap();
    assert_eq!(s.get_queued_items(), 2);
    assert_eq!(s1.get_queued_items(), 2);
    drop(s);
    assert_eq!(r.get_senders_num(), 1);
    assert_eq!(r.recv(), Ok(10));
    assert_eq!(r.recv(), Ok(11));
    s1.send(12, true).unwrap();
    drop(s1);
    assert_eq!(r.get_senders_num(), 0);
    assert_eq!(r.recv(), Ok(12));
    assert_eq!(r.recv(), Err(ChannelError::NoSender));
}

#[test]
fn multi_sender_should_work() {
    let (mut s, mut r) = async_channel();
    let mut v = vec![];
    for i in 0..2 {
        let mut ts = s.clone();
        ts.send(i, false).unwrap();
    }
    s.send(2, false).unwrap();
    drop(s);

    while let Ok(res) = r.recv() {
        v.push(res);
    }

    v.sort();
    assert_eq!(v, [0, 1, 2]);
}

#[test]
fn all_sender_drop_should_error_when_receive() {
    let (s, mut r) = async_channel();
    let s1 = s.clone();

    let senders = [s, s1];
    let senders_num = senders.len();

    for mut sender in senders {
        sender.send("hello", false).unwrap();
    }

    for _ in 0..senders_num {
        r.recv().unwrap();
    }

    assert!(r.recv().is_err());
}

#[test]
fn accept_send_needs_a_receiver() {
    assert_eq!(accept_send(0), Err(ChannelError::NoReceiver));
    assert_eq!(accept_send(1), Ok(()));
    assert_eq!(accept_send(usize::MAX), Ok(()));
}

#[test]
fn enqueue_places_by_tier_and_reports_an_empty_queue() {
    let mut queue = VecDeque::new();
    assert!(enqueue(&mut queue, 'a', false));
    assert!(!enqueue(&mut queue, 'b', true));
    assert!(!enqueue(&mut queue, 'c', true));
    assert!(!enqueue(&mut queue, 'd', false));
    assert_eq!(queue, VecDeque::from(vec!['c', 'b', 'a', 'd']));
    let mut urgent_first = VecDeque::new();
    assert!(enqueue(&mut urgent_first, 1, true));
    assert_eq!(urgent_first, VecDeque::from(vec![1]));
}

#[test]
fn must_wait_only_when_empty_with_a_sender() {
    assert!(must_wait(0, 1));
    assert!(must_wait(0, 5));
    assert!(!must_wait(0, 0));
    assert!(!must_wait(1, 1));
    assert!(!must_wait(3, 0));
}

#[test]
fn dequeue_takes_the_front() {
    let mut queue = VecDeque::from(vec![1, 2, 3]);
    assert_eq!(dequeue(&mut queue), Ok(1));
    assert_eq!(queue, VecDeque::from(vec![2, 3]));
    assert_eq!(dequeue(&mut queue), Ok(2));
    assert_eq!(dequeue(&mut queue), Ok(3));
    assert_eq!(dequeue(&mut queue), Err(ChannelError::NoSender));
    assert!(queue.is_empty());
}

#[test]
fn channel_error_messages() {
    assert_eq!(ChannelError::NoReceiver.message(), "no receiver");
    assert_eq!(ChannelError::NoSender.message(), "no sender!");
}
