use gorustines::StandardChannel;

#[test]
fn standard_channel_is_fifo() {
    let mut channel = StandardChannel::new(3);
    assert!(channel.has_room());
    channel.send(4);
    channel.send(8);
    channel.send(15);
    assert!(!channel.has_room());
    assert_eq!(channel.len(), 3);
    assert_eq!(channel.recv(), 4);
    assert_eq!(channel.recv(), 8);
    channel.send(16);
    assert_eq!(channel.recv(), 15);
    assert_eq!(channel.recv(), 16);
    assert_eq!(channel.len(), 0);
}

#[test]
fn standard_channel_with_no_capacity_has_no_room() {
    let channel: StandardChannel<u8> = StandardChannel::new(0);
    assert!(!channel.has_room());
    assert_eq!(channel.len(), 0);
}
