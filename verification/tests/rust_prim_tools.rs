use gorustines::{Channelish, RecvError, SendError, SendTimeoutError};
use std::time::{Duration, Instant};

#[test]
fn test_basic_operations() {
    let mut channel = Channelish::new(2);
    assert!(channel.send(1).is_ok());
    assert!(channel.send(2).is_ok());
    assert_eq!(channel.recv().unwrap(), 1);
    assert_eq!(channel.recv().unwrap(), 2);
}

#[test]
fn test_timeout() {
    let mut channel = Channelish::new(1);
    assert!(channel.send(1).is_ok());
    // Nobody receives, so the channel stays full for the whole 100 ms.
    let timeout = Duration::from_millis(100);
    let start = Instant::now();
    while start.elapsed() < timeout {}
    let deadline_passed = start.elapsed() >= timeout;
    assert!(matches!(
        channel.send_timeout(2, deadline_passed),
        Err(SendTimeoutError::Timeout(_))
    ));
}

#[test]
fn new_channel_is_open_and_empty() {
    let channel: Channelish<u32> = Channelish::new(3);
    assert_eq!(channel.len(), 0);
    assert!(channel.is_empty());
    assert!(!channel.is_closed());
    assert_eq!(channel.capacity(), 3);
}

#[test]
fn timed_send_to_full_channel_hands_value_back_after_deadline() {
    let mut channel = Channelish::new(1);
    assert!(channel.send(10).is_ok());
    assert!(matches!(channel.send_timeout(11, true), Err(SendTimeoutError::Timeout(11))));
    assert_eq!(channel.len(), 1);
    assert_eq!(channel.recv().unwrap(), 10);
}

#[test]
fn timed_send_with_room_goes_ahead_before_deadline() {
    let mut channel = Channelish::new(2);
    assert!(channel.send_timeout(5, false).is_ok());
    assert!(channel.send_timeout(6, true).is_ok());
    assert_eq!(channel.recv_timeout(false).unwrap(), 5);
    assert_eq!(channel.recv_timeout(true).unwrap(), 6);
}

#[test]
fn zero_capacity_channel_times_out_and_is_empty() {
    let mut channel = Channelish::new(0);
    assert!(matches!(channel.send_timeout(2, true), Err(SendTimeoutError::Timeout(2))));
    assert!(matches!(channel.recv_timeout(true), Err(RecvError::Empty)));
    channel.close();
    assert!(matches!(channel.send(1), Err(SendError::Disconnected(1))));
}

#[test]
fn timed_recv_from_empty_open_channel_is_empty_after_deadline() {
    let mut channel: Channelish<u8> = Channelish::new(4);
    assert!(matches!(channel.recv_timeout(true), Err(RecvError::Empty)));
    assert!(channel.is_empty());
}

#[test]
fn closed_channel_refuses_sends_and_drains() {
    let mut channel = Channelish::new(3);
    assert!(channel.send(1).is_ok());
    assert!(channel.send(2).is_ok());
    channel.close();
    assert!(channel.is_closed());
    assert!(matches!(channel.send(3), Err(SendError::Disconnected(3))));
    assert!(matches!(channel.send_timeout(4, false), Err(SendTimeoutError::Disconnected(4))));
    assert_eq!(channel.len(), 2);
    assert_eq!(channel.recv().unwrap(), 1);
    assert_eq!(channel.recv_timeout(false).unwrap(), 2);
    assert!(matches!(channel.recv(), Err(RecvError::Disconnected)));
    assert!(matches!(channel.recv(), Err(RecvError::Disconnected)));
    assert!(matches!(channel.recv_timeout(true), Err(RecvError::Disconnected)));
}

#[test]
fn closing_twice_is_closing_once() {
    let mut channel: Channelish<i32> = Channelish::new(2);
    channel.close();
    channel.close();
    assert!(matches!(channel.send(7), Err(SendError::Disconnected(7))));
    assert!(matches!(channel.recv(), Err(RecvError::Disconnected)));
}

#[test]
fn values_come_out_in_the_order_sent() {
    let mut channel = Channelish::new(5);
    for v in [5, 3, 9, 1, 7] {
        assert!(channel.send(v).is_ok());
    }
    let mut got = Vec::new();
    while !channel.is_empty() {
        got.push(channel.recv().unwrap());
    }
    assert_eq!(got, vec![5, 3, 9, 1, 7]);
}

#[test]
fn interleaved_calls_keep_fifo_order_and_count() {
    let mut channel = Channelish::new(2);
    let mut accepted = Vec::new();
    let mut received = Vec::new();
    for v in ["a", "b"] {
        assert!(channel.send(v).is_ok());
        accepted.push(v);
    }
    received.push(channel.recv().unwrap());
    assert!(channel.send_timeout("c", false).is_ok());
    accepted.push("c");
    assert!(matches!(channel.send_timeout("d", true), Err(SendTimeoutError::Timeout("d"))));
    received.push(channel.recv_timeout(false).unwrap());
    channel.close();
    assert!(matches!(channel.send("e"), Err(SendError::Disconnected("e"))));
    assert_eq!(channel.len(), accepted.len() - received.len());
    received.push(channel.recv().unwrap());
    assert!(matches!(channel.recv(), Err(RecvError::Disconnected)));
    assert_eq!(received, accepted);
    assert_eq!(channel.capacity(), 2);
}

#[test]
fn send_then_recv_gives_value_back() {
    let mut channel = Channelish::new(1);
    assert!(channel.send(String::from("x")).is_ok());
    assert_eq!(channel.recv().unwrap(), "x");
    assert!(channel.is_empty());
    assert_eq!(channel.capacity(), 1);
}

#[test]
fn length_never_exceeds_capacity() {
    let mut channel = Channelish::new(3);
    for v in 0..10 {
        let _ = channel.send_timeout(v, true);
        assert!(channel.len() <= channel.capacity());
    }
    assert_eq!(channel.len(), 3);
    assert_eq!(channel.capacity(), 3);
}

#[test]
fn timed_calls_agree_with_plain_calls_when_ready() {
    let mut a = Channelish::new(2);
    let mut b = Channelish::new(2);
    assert!(a.send(1).is_ok());
    assert!(b.send_timeout(1, false).is_ok());
    assert_eq!(a.recv().unwrap(), b.recv_timeout(false).unwrap());
    a.close();
    b.close();
    assert!(matches!(a.send(2), Err(SendError::Disconnected(2))));
    assert!(matches!(b.send_timeout(2, false), Err(SendTimeoutError::Disconnected(2))));
}
